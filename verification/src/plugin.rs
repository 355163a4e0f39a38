//! The plugin surface: the factory registry of known plugin names, and the
//! validation of each plugin's options. Construction of the live stages —
//! sockets, files, tasks — happens outside the library, after validation
//! has produced plain configuration values.

use vstd::prelude::*;
use vstd::string::*;

use crate::json::{fields_view, vget, JsonData, JsonNum};
use crate::ship_config::{ArgValue, Args};
use crate::transforms::{spec_ts_type, parse_ts_type, TsType};

verus! {

/// The three stage roles a plugin can fill.
#[derive(Copy, Clone, Debug, PartialEq, Eq, Structural)]
pub enum PluginKind {
    Input,
    Transform,
    Output,
}

/// The factory registry, one set of names per role: whether `name` is a
/// registered plugin of the given role. An unknown name in a configuration
/// is a fatal error. The byte-file sink shares the name `file` with the
/// tailer; the role tells them apart.
pub open spec fn spec_known_plugin(kind: PluginKind, name: Seq<char>) -> bool {
    match kind {
        PluginKind::Input => name == "file"@ || name == "journald"@ || name == "stdin"@,
        PluginKind::Transform => name == "python"@ || name == "insert_field"@ || name
            == "insert_ts"@,
        PluginKind::Output => name == "stdout"@ || name == "file"@ || name == "tcp_socket"@ || name
            == "unix_socket"@ || name == "speed_test"@,
    }
}

/// Looks a plugin name up in the registry for a role.
pub fn known_plugin(kind: PluginKind, name: &str) -> (r: bool)
    ensures
        r == spec_known_plugin(kind, name@),
{
    match kind {
        PluginKind::Input => crate::text::str_eq(name, "file") || crate::text::str_eq(
            name,
            "journald",
        ) || crate::text::str_eq(name, "stdin"),
        PluginKind::Transform => crate::text::str_eq(name, "python") || crate::text::str_eq(
            name,
            "insert_field",
        ) || crate::text::str_eq(name, "insert_ts"),
        PluginKind::Output => crate::text::str_eq(name, "stdout") || crate::text::str_eq(
            name,
            "file",
        ) || crate::text::str_eq(name, "tcp_socket") || crate::text::str_eq(name, "unix_socket")
            || crate::text::str_eq(name, "speed_test"),
    }
}

/// Why a plugin's options were rejected.
#[derive(Debug, PartialEq, Eq, Structural)]
pub enum ArgError {
    /// The `state_file` option was retired in favour of `state_file_dir`.
    Deprecated,
    /// A required option is absent.
    Missing,
    /// An option holds a value of the wrong type.
    WrongType,
    /// An option holds a value outside what the plugin accepts.
    BadValue,
    /// An option name the plugin does not recognise.
    Unrecognized,
}

/// Whether every option name is among the allowed ones: options not listed
/// for a plugin are rejected at load time.
pub open spec fn keys_among(args: Seq<(Seq<char>, ArgValue)>, allowed: Seq<Seq<char>>) -> bool {
    forall|i: int| 0 <= i < args.len() ==> allowed.contains((#[trigger] args[i]).0)
}

/// Checks every option name against an allowed list.
fn check_keys(args: &Args, allowed: &Vec<String>) -> (r: bool)
    ensures
        r == keys_among(fields_view(args@), allowed@.map_values(|s: String| s@)),
{
    let ghost views = allowed@.map_values(|s: String| s@);
    let mut i: usize = 0;
    while i < args.len()
        invariant
            i <= args@.len(),
            views == allowed@.map_values(|s: String| s@),
            forall|t: int| 0 <= t < i ==> views.contains((#[trigger] fields_view(args@)[t]).0),
        decreases args@.len() - i,
    {
        let key = &args[i].0;
        let mut found = false;
        let mut j: usize = 0;
        while j < allowed.len()
            invariant_except_break
                j <= allowed@.len(),
                !found,
                forall|t: int| 0 <= t < j ==> (#[trigger] allowed@[t])@ != key@,
            ensures
                found ==> exists|t: int|
                    0 <= t < allowed@.len() && (#[trigger] allowed@[t])@ == key@,
                !found ==> forall|t: int|
                    0 <= t < allowed@.len() ==> (#[trigger] allowed@[t])@ != key@,
            decreases allowed@.len() - j,
        {
            if crate::text::str_eq(allowed[j].as_str(), key.as_str()) {
                found = true;
                break;
            }
            j = j + 1;
        }
        if !found {
            proof {
                assert(fields_view(args@)[i as int].0 == args@[i as int].0@);
                let ghost bad = fields_view(args@)[i as int].0;
                assert(!views.contains(bad)) by {
                    assert forall|t: int| 0 <= t < views.len() implies views[t] != bad by {
                        assert(views[t] == allowed@[t]@);
                    };
                };
            }
            return false;
        }
        proof {
            let t = choose|t: int| 0 <= t < allowed@.len() && (#[trigger] allowed@[t])@ == key@;
            assert(views[t] == allowed@[t]@);
            assert(views.contains(fields_view(args@)[i as int].0));
        }
        i = i + 1;
    }
    true
}


/// The option names the file tailer accepts.
pub open spec fn file_option_names() -> Seq<Seq<char>> {
    seq!["path"@, "state_file_dir"@, "from_beginning"@, "parse_json"@, "channel_size"@]
}

fn file_option_list() -> (r: Vec<String>)
    ensures
        r@.map_values(|s: String| s@) == file_option_names(),
{
    let mut v: Vec<String> = Vec::new();
    v.push(String::from_str("path"));
    v.push(String::from_str("state_file_dir"));
    v.push(String::from_str("from_beginning"));
    v.push(String::from_str("parse_json"));
    v.push(String::from_str("channel_size"));
    proof {
        assert(v@.map_values(|s: String| s@) =~= file_option_names());
    }
    v
}

/// The option names the field injector accepts.
pub open spec fn insert_field_option_names() -> Seq<Seq<char>> {
    seq!["field"@, "value"@, "overwrite"@, "channel_size"@]
}

fn insert_field_option_list() -> (r: Vec<String>)
    ensures
        r@.map_values(|s: String| s@) == insert_field_option_names(),
{
    let mut v: Vec<String> = Vec::new();
    v.push(String::from_str("field"));
    v.push(String::from_str("value"));
    v.push(String::from_str("overwrite"));
    v.push(String::from_str("channel_size"));
    proof {
        assert(v@.map_values(|s: String| s@) =~= insert_field_option_names());
    }
    v
}

/// The option names the timestamp injector accepts.
pub open spec fn insert_ts_option_names() -> Seq<Seq<char>> {
    seq!["field"@, "ts_type"@, "overwrite"@, "channel_size"@]
}

fn insert_ts_option_list() -> (r: Vec<String>)
    ensures
        r@.map_values(|s: String| s@) == insert_ts_option_names(),
{
    let mut v: Vec<String> = Vec::new();
    v.push(String::from_str("field"));
    v.push(String::from_str("ts_type"));
    v.push(String::from_str("overwrite"));
    v.push(String::from_str("channel_size"));
    proof {
        assert(v@.map_values(|s: String| s@) =~= insert_ts_option_names());
    }
    v
}

/// The option names the journal reader accepts.
pub open spec fn journald_option_names() -> Seq<Seq<char>> {
    seq!["journal"@, "from_beginning"@, "cursor_file"@, "channel_size"@]
}

fn journald_option_list() -> (r: Vec<String>)
    ensures
        r@.map_values(|s: String| s@) == journald_option_names(),
{
    let mut v: Vec<String> = Vec::new();
    v.push(String::from_str("journal"));
    v.push(String::from_str("from_beginning"));
    v.push(String::from_str("cursor_file"));
    v.push(String::from_str("channel_size"));
    proof {
        assert(v@.map_values(|s: String| s@) =~= journald_option_names());
    }
    v
}

/// The option names the metrics source accepts.
pub open spec fn metrics_option_names() -> Seq<Seq<char>> {
    seq![
        "metrics"@,
        "cpu_poll_secs"@,
        "mem_poll_secs"@,
        "disk_poll_secs"@,
        "net_poll_secs"@,
        "channel_size"@,
    ]
}

fn metrics_option_list() -> (r: Vec<String>)
    ensures
        r@.map_values(|s: String| s@) == metrics_option_names(),
{
    let mut v: Vec<String> = Vec::new();
    v.push(String::from_str("metrics"));
    v.push(String::from_str("cpu_poll_secs"));
    v.push(String::from_str("mem_poll_secs"));
    v.push(String::from_str("disk_poll_secs"));
    v.push(String::from_str("net_poll_secs"));
    v.push(String::from_str("channel_size"));
    proof {
        assert(v@.map_values(|s: String| s@) =~= metrics_option_names());
    }
    v
}

/// Reads the channel capacity every plugin needs. The merge of the global
/// options puts it in place; it must be a non-negative integer.
pub fn get_channel_size(args: &Args) -> (r: Result<usize, ArgError>)
    ensures
        r == (match vget(fields_view(args@), "channel_size"@) {
            Some(ArgValue::Int(i)) => if 0 <= i <= usize::MAX {
                Ok::<usize, ArgError>(i as usize)
            } else {
                Err::<usize, ArgError>(ArgError::BadValue)
            },
            Some(_) => Err::<usize, ArgError>(ArgError::WrongType),
            None => Err::<usize, ArgError>(ArgError::Missing),
        }),
{
    match crate::ship_config::args_get(args, "channel_size") {
        Some(ArgValue::Int(i)) => {
            let v: i64 = *i;
            if v >= 0 && v as u64 <= usize::MAX as u64 {
                Ok(v as usize)
            } else {
                Err(ArgError::BadValue)
            }
        },
        Some(_) => Err(ArgError::WrongType),
        None => Err(ArgError::Missing),
    }
}

/// Reads an optional boolean option with a default of `false`.
fn get_opt_bool(args: &Args, key: &str) -> (r: Result<bool, ArgError>)
    ensures
        r == (match vget(fields_view(args@), key@) {
            Some(ArgValue::Bool(b)) => Ok::<bool, ArgError>(b),
            Some(_) => Err::<bool, ArgError>(ArgError::WrongType),
            None => Ok::<bool, ArgError>(false),
        }),
{
    match crate::ship_config::args_get(args, key) {
        Some(ArgValue::Bool(b)) => Ok(*b),
        Some(_) => Err(ArgError::WrongType),
        None => Ok(false),
    }
}

/// The file tailer's validated options.
#[derive(Debug)]
pub struct FileTailerConfig {
    /// The path to tail; it may be a glob.
    pub path: String,
    /// Where state files live; the tailed file's directory when absent.
    pub state_file_dir: Option<String>,
    pub from_beginning: bool,
    pub parse_json: bool,
    pub channel_size: usize,
}

/// Validates the file tailer's options: `path` is a required string, the
/// retired `state_file` option is rejected, any other unlisted option is
/// rejected, `state_file_dir` must be a string when given, the two flags
/// must be booleans and default to off, and the merged `channel_size` must
/// be a usable integer.
pub fn validate_file_args(args: &Args) -> (r: Result<FileTailerConfig, ArgError>)
    ensures
        vget(fields_view(args@), "state_file"@) is Some ==> r == Err::<FileTailerConfig, ArgError>(
            ArgError::Deprecated,
        ),
        r matches Ok(c) ==> {
            &&& keys_among(fields_view(args@), file_option_names())
            &&& vget(fields_view(args@), "state_file"@) is None
            &&& (vget(fields_view(args@), "path"@) matches Some(ArgValue::Str(p)) && c.path@ == p@)
            &&& (match vget(fields_view(args@), "state_file_dir"@) {
                Some(ArgValue::Str(d)) => c.state_file_dir matches Some(sd) && sd@ == d@,
                Some(_) => false,
                None => c.state_file_dir is None,
            })
            &&& (match vget(fields_view(args@), "from_beginning"@) {
                Some(ArgValue::Bool(b)) => c.from_beginning == b,
                Some(_) => false,
                None => c.from_beginning == false,
            })
            &&& (match vget(fields_view(args@), "parse_json"@) {
                Some(ArgValue::Bool(b)) => c.parse_json == b,
                Some(_) => false,
                None => c.parse_json == false,
            })
            &&& (vget(fields_view(args@), "channel_size"@) matches Some(ArgValue::Int(i)) && 0 <= i
                && c.channel_size == i)
        },
        r is Err ==> (vget(fields_view(args@), "state_file"@) is Some || !keys_among(
            fields_view(args@),
            file_option_names(),
        ) || !(vget(fields_view(args@), "path"@) matches Some(ArgValue::Str(_))) || (vget(
            fields_view(args@),
            "state_file_dir"@,
        ) matches Some(v) && !(v is Str)) || (vget(fields_view(args@), "from_beginning"@) matches
            Some(v) && !(v is Bool)) || (vget(fields_view(args@), "parse_json"@) matches Some(v)
            && !(v is Bool)) || !(vget(fields_view(args@), "channel_size"@) matches Some(
            ArgValue::Int(i),
        ) && 0 <= i <= usize::MAX)),
{
    if crate::ship_config::args_get(args, "state_file").is_some() {
        return Err(ArgError::Deprecated);
    }
    if !check_keys(args, &file_option_list()) {
        return Err(ArgError::Unrecognized);
    }
    let parse_json = get_opt_bool(args, "parse_json")?;
    let from_beginning = get_opt_bool(args, "from_beginning")?;
    let state_file_dir: Option<String> = match crate::ship_config::args_get(
        args,
        "state_file_dir",
    ) {
        Some(ArgValue::Str(d)) => Some(d.clone()),
        Some(_) => {
            return Err(ArgError::WrongType);
        },
        None => None,
    };
    let path: String = match crate::ship_config::args_get(args, "path") {
        Some(ArgValue::Str(p)) => p.clone(),
        Some(_) => {
            return Err(ArgError::WrongType);
        },
        None => {
            return Err(ArgError::Missing);
        },
    };
    let channel_size = get_channel_size(args)?;
    Ok(FileTailerConfig { path, state_file_dir, from_beginning, parse_json, channel_size })
}

/// The field injector's validated options.
#[derive(Debug)]
pub struct InsertFieldConfig {
    pub field: String,
    /// The scalar to inject; arrays and tables are not scalars.
    pub value: JsonData,
    pub overwrite: bool,
    pub channel_size: usize,
}

/// The injected value for an option scalar: text, integer, float text, or
/// boolean. Arrays are not scalars.
pub open spec fn scalar_of_arg(v: ArgValue) -> Option<JsonData> {
    match v {
        ArgValue::Str(s) => Some(JsonData::Str(s)),
        ArgValue::Int(i) => Some(JsonData::Num(JsonNum::Int(i))),
        ArgValue::FloatText(f) => Some(JsonData::Num(JsonNum::Float(f))),
        ArgValue::Bool(b) => Some(JsonData::Bool(b)),
        ArgValue::Arr(_) => None,
    }
}

/// Validates the field injector's options: `field` a required string,
/// `value` a required scalar, `overwrite` a boolean defaulting to off. It
/// fails exactly on a missing or non-string `field`, a missing or
/// non-scalar `value`, a non-boolean `overwrite`, or an unusable merged
/// `channel_size`.
pub fn validate_insert_field_args(args: &Args) -> (r: Result<InsertFieldConfig, ArgError>)
    ensures
        r is Err ==> (!keys_among(fields_view(args@), insert_field_option_names()) || !(vget(
            fields_view(args@),
            "field"@,
        ) matches Some(ArgValue::Str(_))) || !(
        vget(fields_view(args@), "value"@) matches Some(v) && scalar_of_arg(v) is Some) || (vget(
            fields_view(args@),
            "overwrite"@,
        ) matches Some(v) && !(v is Bool)) || !(vget(fields_view(args@), "channel_size"@) matches
            Some(ArgValue::Int(i)) && 0 <= i <= usize::MAX)),
        r matches Ok(c) ==> {
            &&& keys_among(fields_view(args@), insert_field_option_names())
            &&& (vget(fields_view(args@), "field"@) matches Some(ArgValue::Str(f)) && c.field@
                == f@)
            &&& (vget(fields_view(args@), "value"@) matches Some(v) && scalar_of_arg(v) == Some(
                c.value,
            ))
            &&& !(c.value is Arr)
            &&& !(c.value is Obj)
            &&& (match vget(fields_view(args@), "overwrite"@) {
                Some(ArgValue::Bool(b)) => c.overwrite == b,
                Some(_) => false,
                None => c.overwrite == false,
            })
        },
{
    if !check_keys(args, &insert_field_option_list()) {
        return Err(ArgError::Unrecognized);
    }
    let field: String = match crate::ship_config::args_get(args, "field") {
        Some(ArgValue::Str(f)) => f.clone(),
        Some(_) => {
            return Err(ArgError::WrongType);
        },
        None => {
            return Err(ArgError::Missing);
        },
    };
    let value: JsonData = match crate::ship_config::args_get(args, "value") {
        Some(ArgValue::Str(s)) => JsonData::Str(s.clone()),
        Some(ArgValue::Int(i)) => JsonData::Num(JsonNum::Int(*i)),
        Some(ArgValue::FloatText(f)) => JsonData::Num(JsonNum::Float(f.clone())),
        Some(ArgValue::Bool(b)) => JsonData::Bool(*b),
        Some(ArgValue::Arr(_)) => {
            return Err(ArgError::WrongType);
        },
        None => {
            return Err(ArgError::Missing);
        },
    };
    let overwrite = get_opt_bool(args, "overwrite")?;
    let channel_size = get_channel_size(args)?;
    Ok(InsertFieldConfig { field, value, overwrite, channel_size })
}

/// The timestamp injector's validated options.
#[derive(Debug)]
pub struct InsertTsConfig {
    pub field: String,
    pub ts_type: TsType,
    pub overwrite: bool,
    pub channel_size: usize,
}

/// Validates the timestamp injector's options: `field` defaults to `t`,
/// `ts_type` defaults to `epoch` and must name one of the three formats,
/// `overwrite` defaults to off. It fails exactly on a non-string `field`,
/// a `ts_type` that is not a string naming a format, a non-boolean
/// `overwrite`, or an unusable merged `channel_size`.
pub fn validate_insert_ts_args(args: &Args) -> (r: Result<InsertTsConfig, ArgError>)
    ensures
        r is Err ==> (!keys_among(fields_view(args@), insert_ts_option_names()) || (vget(
            fields_view(args@),
            "field"@,
        ) matches Some(v) && !(v is Str)) || (
        match vget(fields_view(args@), "ts_type"@) {
            Some(ArgValue::Str(f)) => spec_ts_type(f@) is None,
            Some(_) => true,
            None => false,
        }) || (vget(fields_view(args@), "overwrite"@) matches Some(v) && !(v is Bool)) || !(vget(
            fields_view(args@),
            "channel_size"@,
        ) matches Some(ArgValue::Int(i)) && 0 <= i <= usize::MAX)),
        r matches Ok(c) ==> {
            &&& keys_among(fields_view(args@), insert_ts_option_names())
            &&& (match vget(fields_view(args@), "field"@) {
                Some(ArgValue::Str(f)) => c.field@ == f@,
                Some(_) => false,
                None => c.field@ == "t"@,
            })
            &&& (match vget(fields_view(args@), "ts_type"@) {
                Some(ArgValue::Str(f)) => spec_ts_type(f@) == Some(c.ts_type),
                Some(_) => false,
                None => c.ts_type == TsType::Epoch,
            })
            &&& (match vget(fields_view(args@), "overwrite"@) {
                Some(ArgValue::Bool(b)) => c.overwrite == b,
                Some(_) => false,
                None => c.overwrite == false,
            })
        },
{
    if !check_keys(args, &insert_ts_option_list()) {
        return Err(ArgError::Unrecognized);
    }
    let field: String = match crate::ship_config::args_get(args, "field") {
        Some(ArgValue::Str(f)) => f.clone(),
        Some(_) => {
            return Err(ArgError::WrongType);
        },
        None => String::from_str("t"),
    };
    let ts_type: TsType = match crate::ship_config::args_get(args, "ts_type") {
        Some(ArgValue::Str(f)) => {
            match parse_ts_type(f.as_str()) {
                Some(t) => t,
                None => {
                    return Err(ArgError::BadValue);
                },
            }
        },
        Some(_) => {
            return Err(ArgError::WrongType);
        },
        None => TsType::Epoch,
    };
    let overwrite = get_opt_bool(args, "overwrite")?;
    let channel_size = get_channel_size(args)?;
    Ok(InsertTsConfig { field, ts_type, overwrite, channel_size })
}

/// Reads the optional `ts_field` option (the syslog-family parsers),
/// defaulting to `t`.
pub fn get_ts_field(args: &Args) -> (r: Result<String, ArgError>)
    ensures
        r matches Ok(f) ==> (match vget(fields_view(args@), "ts_field"@) {
            Some(ArgValue::Str(s)) => f@ == s@,
            Some(_) => false,
            None => f@ == "t"@,
        }),
        r is Err <==> (vget(fields_view(args@), "ts_field"@) matches Some(v) && !(v is Str)),
{
    match crate::ship_config::args_get(args, "ts_field") {
        Some(ArgValue::Str(s)) => Ok(s.clone()),
        Some(_) => Err(ArgError::WrongType),
        None => Ok(String::from_str("t")),
    }
}


/// The journal reader's validated options.
#[derive(Debug)]
pub struct JournaldConfig {
    /// Which journal to open: `all`, `system`, or `user`.
    pub journal: String,
    pub from_beginning: bool,
    /// Where the opaque journal cursor is persisted.
    pub cursor_file: String,
    pub channel_size: usize,
}

/// Validates the journal reader's options: `journal` defaults to `all` and
/// must name one of the three journals, `cursor_file` is a required
/// string, and `from_beginning` defaults to off. It fails exactly on a
/// `journal` that is not a string naming a journal, a non-boolean
/// `from_beginning`, a missing or non-string `cursor_file`, or an unusable
/// merged `channel_size`.
pub fn validate_journald_args(args: &Args) -> (r: Result<JournaldConfig, ArgError>)
    ensures
        r is Err ==> (!keys_among(fields_view(args@), journald_option_names()) || (match vget(
            fields_view(args@),
            "journal"@,
        ) {
            Some(ArgValue::Str(j)) => !(j@ == "all"@ || j@ == "system"@ || j@ == "user"@),
            Some(_) => true,
            None => false,
        }) || (vget(fields_view(args@), "from_beginning"@) matches Some(v) && !(v is Bool)) || !(
        vget(fields_view(args@), "cursor_file"@) matches Some(ArgValue::Str(_))) || !(vget(
            fields_view(args@),
            "channel_size"@,
        ) matches Some(ArgValue::Int(i)) && 0 <= i <= usize::MAX)),
        r matches Ok(c) ==> {
            &&& keys_among(fields_view(args@), journald_option_names())
            &&& (match vget(fields_view(args@), "journal"@) {
                Some(ArgValue::Str(j)) => c.journal@ == j@ && (j@ == "all"@ || j@ == "system"@
                    || j@ == "user"@),
                Some(_) => false,
                None => c.journal@ == "all"@,
            })
            &&& (match vget(fields_view(args@), "from_beginning"@) {
                Some(ArgValue::Bool(b)) => c.from_beginning == b,
                Some(_) => false,
                None => c.from_beginning == false,
            })
            &&& (vget(fields_view(args@), "cursor_file"@) matches Some(ArgValue::Str(f))
                && c.cursor_file@ == f@)
        },
{
    if !check_keys(args, &journald_option_list()) {
        return Err(ArgError::Unrecognized);
    }
    let journal: String = match crate::ship_config::args_get(args, "journal") {
        Some(ArgValue::Str(j)) => {
            if crate::text::str_eq(j.as_str(), "all") || crate::text::str_eq(j.as_str(), "system")
                || crate::text::str_eq(j.as_str(), "user") {
                j.clone()
            } else {
                return Err(ArgError::BadValue);
            }
        },
        Some(_) => {
            return Err(ArgError::WrongType);
        },
        None => String::from_str("all"),
    };
    let from_beginning = get_opt_bool(args, "from_beginning")?;
    let cursor_file: String = match crate::ship_config::args_get(args, "cursor_file") {
        Some(ArgValue::Str(f)) => f.clone(),
        Some(_) => {
            return Err(ArgError::WrongType);
        },
        None => {
            return Err(ArgError::Missing);
        },
    };
    let channel_size = get_channel_size(args)?;
    Ok(JournaldConfig { journal, from_beginning, cursor_file, channel_size })
}

/// The metrics source's validated options: which of the four gauges run,
/// and how often each polls, in seconds.
#[derive(Debug)]
pub struct MetricsConfig {
    pub cpu: bool,
    pub memory: bool,
    pub disk: bool,
    pub net: bool,
    pub cpu_poll_secs: i64,
    pub mem_poll_secs: i64,
    pub disk_poll_secs: i64,
    pub net_poll_secs: i64,
    pub channel_size: usize,
}

/// Whether every entry of a `metrics` list is one of the four gauge names.
pub open spec fn all_metric_names(items: Seq<ArgValue>) -> bool {
    forall|i: int|
        0 <= i < items.len() ==> ((#[trigger] items[i]) matches ArgValue::Str(s) && (s@ == "cpu"@
            || s@ == "memory"@ || s@ == "disk"@ || s@ == "net"@))
}

/// Whether a `metrics` list names the given gauge.
pub open spec fn names_metric(items: Seq<ArgValue>, name: Seq<char>) -> bool {
    exists|i: int| 0 <= i < items.len() && ((#[trigger] items[i]) matches ArgValue::Str(s) && s@ == name)
}

/// A poll interval read with its default: it must be an integer between 5
/// and 3600 seconds.
pub open spec fn interval_of(args: Seq<(Seq<char>, ArgValue)>, key: Seq<char>, default: i64) -> Option<i64> {
    match vget(args, key) {
        Some(ArgValue::Int(i)) => if 5 <= i <= 3600 {
            Some(i)
        } else {
            None
        },
        Some(_) => None,
        None => Some(default),
    }
}

fn get_interval(args: &Args, key: &str, default: i64) -> (r: Result<i64, ArgError>)
    requires
        5 <= default <= 3600,
    ensures
        r matches Ok(i) ==> interval_of(fields_view(args@), key@, default) == Some(i),
        r is Err <==> interval_of(fields_view(args@), key@, default) is None,
{
    match crate::ship_config::args_get(args, key) {
        Some(ArgValue::Int(i)) => {
            if 5 <= *i && *i <= 3600 {
                Ok(*i)
            } else {
                Err(ArgError::BadValue)
            }
        },
        Some(_) => Err(ArgError::WrongType),
        None => Ok(default),
    }
}

/// Validates the metrics source's options: `metrics` may be one gauge name
/// or a list from `cpu`, `memory`, `disk` and `net`, defaulting to all
/// four; each poll interval must lie between 5 and 3600 seconds. It fails
/// exactly on a `metrics` value that is neither a gauge name nor a list of
/// them, an interval outside its bounds or not an integer, or an unusable
/// merged `channel_size`.
#[verifier::rlimit(80)]
pub fn validate_metrics_args(args: &Args) -> (r: Result<MetricsConfig, ArgError>)
    ensures
        r is Err ==> (!keys_among(fields_view(args@), metrics_option_names()) || (match vget(
            fields_view(args@),
            "metrics"@,
        ) {
            Some(ArgValue::Str(s)) => !(s@ == "cpu"@ || s@ == "memory"@ || s@ == "disk"@ || s@
                == "net"@),
            Some(ArgValue::Arr(items)) => !all_metric_names(items@),
            Some(_) => true,
            None => false,
        }) || interval_of(fields_view(args@), "cpu_poll_secs"@, 5) is None || interval_of(
            fields_view(args@),
            "mem_poll_secs"@,
            5,
        ) is None || interval_of(fields_view(args@), "disk_poll_secs"@, 30) is None || interval_of(
            fields_view(args@),
            "net_poll_secs"@,
            5,
        ) is None || !(vget(fields_view(args@), "channel_size"@) matches Some(ArgValue::Int(i))
            && 0 <= i <= usize::MAX)),
        r matches Ok(c) ==> {
            &&& keys_among(fields_view(args@), metrics_option_names())
            &&& (match vget(fields_view(args@), "metrics"@) {
                Some(ArgValue::Str(s)) => (s@ == "cpu"@ || s@ == "memory"@ || s@ == "disk"@ || s@
                    == "net"@) && c.cpu == (s@ == "cpu"@) && c.memory == (s@ == "memory"@)
                    && c.disk == (s@ == "disk"@) && c.net == (s@ == "net"@),
                Some(ArgValue::Arr(items)) => all_metric_names(items@) && c.cpu == names_metric(
                    items@,
                    "cpu"@,
                ) && c.memory == names_metric(items@, "memory"@) && c.disk == names_metric(
                    items@,
                    "disk"@,
                ) && c.net == names_metric(items@, "net"@),
                Some(_) => false,
                None => c.cpu && c.memory && c.disk && c.net,
            })
            &&& interval_of(fields_view(args@), "cpu_poll_secs"@, 5) == Some(c.cpu_poll_secs)
            &&& interval_of(fields_view(args@), "mem_poll_secs"@, 5) == Some(c.mem_poll_secs)
            &&& interval_of(fields_view(args@), "disk_poll_secs"@, 30) == Some(c.disk_poll_secs)
            &&& interval_of(fields_view(args@), "net_poll_secs"@, 5) == Some(c.net_poll_secs)
        },
{
    if !check_keys(args, &metrics_option_list()) {
        return Err(ArgError::Unrecognized);
    }
    let (cpu, memory, disk, net) = match crate::ship_config::args_get(args, "metrics") {
        Some(ArgValue::Str(s)) => {
            let cpu = crate::text::str_eq(s.as_str(), "cpu");
            let memory = crate::text::str_eq(s.as_str(), "memory");
            let disk = crate::text::str_eq(s.as_str(), "disk");
            let net = crate::text::str_eq(s.as_str(), "net");
            if !(cpu || memory || disk || net) {
                return Err(ArgError::BadValue);
            }
            (cpu, memory, disk, net)
        },
        Some(ArgValue::Arr(items)) => {
            let mut cpu = false;
            let mut memory = false;
            let mut disk = false;
            let mut net = false;
            let mut i: usize = 0;
            while i < items.len()
                invariant
                    vget(fields_view(args@), "metrics"@) == Some(ArgValue::Arr(*items)),
                    i <= items@.len(),
                    all_metric_names(items@.subrange(0, i as int)),
                    cpu == names_metric(items@.subrange(0, i as int), "cpu"@),
                    memory == names_metric(items@.subrange(0, i as int), "memory"@),
                    disk == names_metric(items@.subrange(0, i as int), "disk"@),
                    net == names_metric(items@.subrange(0, i as int), "net"@),
                decreases items@.len() - i,
            {
                let ghost pre = items@.subrange(0, i as int);
                match &items[i] {
                    ArgValue::Str(s) => {
                        let is_cpu = crate::text::str_eq(s.as_str(), "cpu");
                        let is_mem = crate::text::str_eq(s.as_str(), "memory");
                        let is_disk = crate::text::str_eq(s.as_str(), "disk");
                        let is_net = crate::text::str_eq(s.as_str(), "net");
                        if !(is_cpu || is_mem || is_disk || is_net) {
                            proof {
                                assert(!all_metric_names(items@)) by {
                                    assert(items@[i as int] matches ArgValue::Str(s2) && !(s2@
                                        == "cpu"@ || s2@ == "memory"@ || s2@ == "disk"@ || s2@
                                        == "net"@));
                                }
                            }
                            return Err(ArgError::BadValue);
                        }
                        cpu = cpu || is_cpu;
                        memory = memory || is_mem;
                        disk = disk || is_disk;
                        net = net || is_net;
                    },
                    _ => {
                        proof {
                            assert(!all_metric_names(items@)) by {
                                assert(!(items@[i as int] matches ArgValue::Str(_)));
                            }
                        }
                        return Err(ArgError::WrongType);
                    },
                }
                i = i + 1;
                proof {
                    reveal_strlit("cpu");
                    reveal_strlit("memory");
                    reveal_strlit("disk");
                    reveal_strlit("net");
                    let cur = items@.subrange(0, i as int);
                    assert(cur.drop_last() =~= pre);
                    assert(cur.last() == items@[i - 1]);
                    assert(cur =~= pre.push(items@[i - 1]));
                    lemma_names_metric_push(pre, items@[i - 1], "cpu"@);
                    lemma_names_metric_push(pre, items@[i - 1], "memory"@);
                    lemma_names_metric_push(pre, items@[i - 1], "disk"@);
                    lemma_names_metric_push(pre, items@[i - 1], "net"@);
                    assert(all_metric_names(cur));
                }
            }
            proof {
                assert(items@.subrange(0, items@.len() as int) =~= items@);
            }
            (cpu, memory, disk, net)
        },
        Some(_) => {
            return Err(ArgError::WrongType);
        },
        None => (true, true, true, true),
    };
    let cpu_poll_secs = get_interval(args, "cpu_poll_secs", 5)?;
    let mem_poll_secs = get_interval(args, "mem_poll_secs", 5)?;
    let disk_poll_secs = get_interval(args, "disk_poll_secs", 30)?;
    let net_poll_secs = get_interval(args, "net_poll_secs", 5)?;
    let channel_size = get_channel_size(args)?;
    Ok(MetricsConfig {
        cpu,
        memory,
        disk,
        net,
        cpu_poll_secs,
        mem_poll_secs,
        disk_poll_secs,
        net_poll_secs,
        channel_size,
    })
}

/// Extending a list with one entry names a gauge exactly when the list
/// already did or the entry does.
proof fn lemma_names_metric_push(items: Seq<ArgValue>, entry: ArgValue, name: Seq<char>)
    ensures
        names_metric(items.push(entry), name) == (names_metric(items, name) || (entry matches
            ArgValue::Str(s) && s@ == name)),
{
    let pushed = items.push(entry);
    if names_metric(items, name) {
        let i = choose|i: int|
            0 <= i < items.len() && ((#[trigger] items[i]) matches ArgValue::Str(s) && s@ == name);
        assert(pushed[i] == items[i]);
    }
    if entry matches ArgValue::Str(s) && s@ == name {
        assert(pushed[items.len() as int] == entry);
    }
    if names_metric(pushed, name) && !(entry matches ArgValue::Str(s) && s@ == name) {
        let i = choose|i: int|
            0 <= i < pushed.len() && ((#[trigger] pushed[i]) matches ArgValue::Str(s) && s@
                == name);
        assert(i < items.len());
        assert(items[i] == pushed[i]);
    }
}


/// Where the journal reader starts: the head, a saved cursor, or wherever
/// the journal opens by default.
#[derive(Debug)]
pub enum SeekPlan {
    Head,
    AtCursor(String),
    Current,
}

/// Decides where the journal reader seeks before its first entry: the head
/// under `from_beginning`, else the saved cursor when the cursor file held
/// one, else the journal's own starting position.
pub fn journal_seek_plan(from_beginning: bool, cursor: Option<String>) -> (r: SeekPlan)
    ensures
        from_beginning ==> r is Head,
        !from_beginning ==> (match cursor {
            Some(c) => r == SeekPlan::AtCursor(c),
            None => r is Current,
        }),
{
    if from_beginning {
        SeekPlan::Head
    } else {
        match cursor {
            Some(c) => SeekPlan::AtCursor(c),
            None => SeekPlan::Current,
        }
    }
}

/// Turns one journal entry into its event: a structured record with every
/// journal field as text, in the order given.
pub fn journal_entry_event(fields: Vec<(String, String)>) -> (r: crate::event::Event)
    ensures
        r matches crate::event::Event::Json(JsonData::Obj(out)) && out@.len() == fields@.len()
            && forall|i: int|
            0 <= i < fields@.len() ==> (#[trigger] out@[i]) == (
            fields@[i].0,
            JsonData::Str(fields@[i].1),
        ),
{
    let ghost all = fields@;
    let mut out: Vec<(String, JsonData)> = Vec::new();
    let mut rest = fields;
    while rest.len() > 0
        invariant
            rest@ =~= all.skip(out@.len() as int),
            out@.len() <= all.len(),
            forall|i: int|
                0 <= i < out@.len() ==> (#[trigger] out@[i]) == (
                all[i].0,
                JsonData::Str(all[i].1),
            ),
        decreases rest@.len(),
    {
        let ghost before = rest@;
        let (k, v) = rest.remove(0);
        proof {
            assert(rest@ =~= before.drop_first());
            assert(before.first() == all[out@.len() as int]);
            assert(rest@ =~= all.skip(out@.len() as int + 1));
        }
        out.push((k, JsonData::Str(v)));
    }
    crate::event::Event::Json(JsonData::Obj(out))
}


/// The option names the standard input accepts.
pub open spec fn stdin_option_names() -> Seq<Seq<char>> {
    seq!["parse_json"@, "channel_size"@]
}

fn stdin_option_list() -> (r: Vec<String>)
    ensures
        r@.map_values(|s: String| s@) == stdin_option_names(),
{
    let mut v: Vec<String> = Vec::new();
    v.push(String::from_str("parse_json"));
    v.push(String::from_str("channel_size"));
    proof {
        assert(v@.map_values(|s: String| s@) =~= stdin_option_names());
    }
    v
}

/// The standard input's validated options.
#[derive(Debug)]
pub struct StdinConfig {
    pub parse_json: bool,
    pub channel_size: usize,
}

/// Validates the standard input's options: `parse_json` must be a boolean
/// and defaults to off; any unlisted option is rejected.
pub fn validate_stdin_args(args: &Args) -> (r: Result<StdinConfig, ArgError>)
    ensures
        r is Err ==> (!keys_among(fields_view(args@), stdin_option_names()) || (vget(
            fields_view(args@),
            "parse_json"@,
        ) matches Some(v) && !(v is Bool)) || !(vget(fields_view(args@), "channel_size"@) matches
            Some(ArgValue::Int(i)) && 0 <= i <= usize::MAX)),
        r matches Ok(c) ==> {
            &&& keys_among(fields_view(args@), stdin_option_names())
            &&& (match vget(fields_view(args@), "parse_json"@) {
                Some(ArgValue::Bool(b)) => c.parse_json == b,
                Some(_) => false,
                None => c.parse_json == false,
            })
            &&& (vget(fields_view(args@), "channel_size"@) matches Some(ArgValue::Int(i)) && 0 <= i
                && c.channel_size == i)
        },
{
    if !check_keys(args, &stdin_option_list()) {
        return Err(ArgError::Unrecognized);
    }
    let parse_json = get_opt_bool(args, "parse_json")?;
    let channel_size = get_channel_size(args)?;
    Ok(StdinConfig { parse_json, channel_size })
}

/// The option names the scripting transform accepts.
pub open spec fn python_option_names() -> Seq<Seq<char>> {
    seq!["path"@, "function"@, "arg_type"@, "channel_size"@]
}

fn python_option_list() -> (r: Vec<String>)
    ensures
        r@.map_values(|s: String| s@) == python_option_names(),
{
    let mut v: Vec<String> = Vec::new();
    v.push(String::from_str("path"));
    v.push(String::from_str("function"));
    v.push(String::from_str("arg_type"));
    v.push(String::from_str("channel_size"));
    proof {
        assert(v@.map_values(|s: String| s@) =~= python_option_names());
    }
    v
}

/// The scripting transform's validated options.
#[derive(Debug)]
pub struct PythonConfig {
    /// The script module to load.
    pub path: String,
    /// The function to call; defaults to `process`.
    pub function: String,
    /// Whether the script wants the raw text (`str`) or the record
    /// (`dict`).
    pub wants_text: bool,
    pub channel_size: usize,
}

/// Validates the scripting transform's options: `path` is a required
/// string, `function` defaults to `process`, and `arg_type` is required
/// and must be `str` or `dict`; any unlisted option is rejected.
pub fn validate_python_args(args: &Args) -> (r: Result<PythonConfig, ArgError>)
    ensures
        r is Err ==> (!keys_among(fields_view(args@), python_option_names()) || !(vget(
            fields_view(args@),
            "path"@,
        ) matches Some(ArgValue::Str(_))) || (vget(fields_view(args@), "function"@) matches Some(v)
            && !(v is Str)) || !(vget(fields_view(args@), "arg_type"@) matches Some(
            ArgValue::Str(t),
        ) && (t@ == "str"@ || t@ == "dict"@)) || !(vget(fields_view(args@), "channel_size"@)
            matches Some(ArgValue::Int(i)) && 0 <= i <= usize::MAX)),
        r matches Ok(c) ==> {
            &&& keys_among(fields_view(args@), python_option_names())
            &&& (vget(fields_view(args@), "path"@) matches Some(ArgValue::Str(p)) && c.path@ == p@)
            &&& (match vget(fields_view(args@), "function"@) {
                Some(ArgValue::Str(f)) => c.function@ == f@,
                Some(_) => false,
                None => c.function@ == "process"@,
            })
            &&& (vget(fields_view(args@), "arg_type"@) matches Some(ArgValue::Str(t)) && (if c.wants_text {
                t@ == "str"@
            } else {
                t@ == "dict"@
            }))
            &&& (vget(fields_view(args@), "channel_size"@) matches Some(ArgValue::Int(i)) && 0 <= i
                && c.channel_size == i)
        },
{
    if !check_keys(args, &python_option_list()) {
        return Err(ArgError::Unrecognized);
    }
    let path: String = match crate::ship_config::args_get(args, "path") {
        Some(ArgValue::Str(p)) => p.clone(),
        Some(_) => {
            return Err(ArgError::WrongType);
        },
        None => {
            return Err(ArgError::Missing);
        },
    };
    let function: String = match crate::ship_config::args_get(args, "function") {
        Some(ArgValue::Str(f)) => f.clone(),
        Some(_) => {
            return Err(ArgError::WrongType);
        },
        None => String::from_str("process"),
    };
    let wants_text: bool = match crate::ship_config::args_get(args, "arg_type") {
        Some(ArgValue::Str(t)) => {
            if crate::text::str_eq(t.as_str(), "str") {
                true
            } else if crate::text::str_eq(t.as_str(), "dict") {
                false
            } else {
                return Err(ArgError::BadValue);
            }
        },
        Some(_) => {
            return Err(ArgError::WrongType);
        },
        None => {
            return Err(ArgError::Missing);
        },
    };
    let channel_size = get_channel_size(args)?;
    Ok(PythonConfig { path, function, wants_text, channel_size })
}

/// The option names the byte-file sink accepts.
pub open spec fn file_output_option_names() -> Seq<Seq<char>> {
    seq!["path"@, "channel_size"@]
}

fn file_output_option_list() -> (r: Vec<String>)
    ensures
        r@.map_values(|s: String| s@) == file_output_option_names(),
{
    let mut v: Vec<String> = Vec::new();
    v.push(String::from_str("path"));
    v.push(String::from_str("channel_size"));
    proof {
        assert(v@.map_values(|s: String| s@) =~= file_output_option_names());
    }
    v
}

/// The byte-file sink's validated options.
#[derive(Debug)]
pub struct FileOutputConfig {
    /// The file to create or truncate and append to.
    pub path: String,
}

/// Validates the byte-file sink's options: `path` is a required string;
/// any unlisted option is rejected.
pub fn validate_file_output_args(args: &Args) -> (r: Result<FileOutputConfig, ArgError>)
    ensures
        r is Err ==> (!keys_among(fields_view(args@), file_output_option_names()) || !(vget(
            fields_view(args@),
            "path"@,
        ) matches Some(ArgValue::Str(_)))),
        r matches Ok(c) ==> {
            &&& keys_among(fields_view(args@), file_output_option_names())
            &&& (vget(fields_view(args@), "path"@) matches Some(ArgValue::Str(p)) && c.path@ == p@)
        },
{
    if !check_keys(args, &file_output_option_list()) {
        return Err(ArgError::Unrecognized);
    }
    match crate::ship_config::args_get(args, "path") {
        Some(ArgValue::Str(p)) => Ok(FileOutputConfig { path: p.clone() }),
        Some(_) => Err(ArgError::WrongType),
        None => Err(ArgError::Missing),
    }
}

} // verus!
