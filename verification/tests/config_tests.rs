use log_ship::config::{
    default_save_location, default_syslog_protocol, default_timestamp_field,
    default_timestamp_format, default_web_address, ConfigError, ConfigFile, TimestampFormat,
};
use log_ship::plugin::{
    get_ts_field, journal_entry_event, journal_seek_plan, known_plugin, validate_file_args,
    validate_file_output_args, validate_insert_field_args, validate_insert_ts_args,
    validate_journald_args, validate_metrics_args, validate_python_args, validate_stdin_args,
    ArgError, PluginKind, SeekPlan,
};
use log_ship::ship_config::{
    args_get, args_set, default_channel_size, merge_globals, ArgValue, Args, Globals, Input,
    Output, Route, ShipConfigError, Transform,
};
use log_ship::transforms::TsType;

#[test]
fn store_defaults() {
    assert_eq!(default_syslog_protocol(), "tcp");
    assert_eq!(default_web_address(), "localhost:8181");
    assert_eq!(default_save_location(), "server");
    assert_eq!(default_timestamp_field(), "t");
    assert_eq!(default_timestamp_format(), TimestampFormat::EPOCH);

    let config = ConfigFile::default();
    assert_eq!(config.retention_days, 30);
    assert_eq!(config.data_dir, "/var/lib/log-store");
    assert!(config.sanity_check().is_ok());
}

#[test]
fn store_sanity_rules() {
    let mut config = ConfigFile::default();
    config.retention_days = 0;
    assert_eq!(config.sanity_check(), Err(ConfigError::ZeroRetention));

    let mut config = ConfigFile::default();
    config.save_location = "BROWSER".to_string();
    assert!(config.sanity_check().is_ok());
    config.save_location = "elsewhere".to_string();
    assert_eq!(config.sanity_check(), Err(ConfigError::BadSaveLocation));
}

fn ship_config() -> log_ship::ship_config::ConfigFile {
    log_ship::ship_config::ConfigFile {
        globals: Globals {
            channel_size: default_channel_size(),
            log_file: None,
        },
        inputs: vec![Input {
            name: "logs".to_string(),
            input_type: "file".to_string(),
            description: None,
            args: Vec::new(),
        }],
        transforms: vec![Transform {
            name: "stamp".to_string(),
            transform_type: "insert_ts".to_string(),
            description: None,
            args: Vec::new(),
        }],
        outputs: vec![Output {
            name: "console".to_string(),
            output_type: "stdout".to_string(),
            description: None,
            args: Vec::new(),
        }],
        routes: vec![Route {
            name: "main".to_string(),
            input: "logs".to_string(),
            transforms: vec!["stamp".to_string()],
            output: "console".to_string(),
        }],
    }
}

#[test]
fn ship_sanity_rules() {
    assert!(ship_config().sanity_check().is_ok());

    let mut config = ship_config();
    config.globals.channel_size = 1;
    assert!(matches!(
        config.sanity_check(),
        Err(ShipConfigError::BadChannelSize)
    ));
    config.globals.channel_size = 1025;
    assert!(matches!(
        config.sanity_check(),
        Err(ShipConfigError::BadChannelSize)
    ));

    let mut config = ship_config();
    config.routes.clear();
    assert!(matches!(
        config.sanity_check(),
        Err(ShipConfigError::NoRoutes)
    ));

    // the route errors name the offending route and the dangling reference
    let mut config = ship_config();
    config.routes[0].input = "missing".to_string();
    match config.sanity_check() {
        Err(ShipConfigError::MissingInput { route, name }) => {
            assert_eq!(route, "main");
            assert_eq!(name, "missing");
        }
        other => panic!("expected a missing-input error, got {:?}", other),
    }

    let mut config = ship_config();
    config.routes[0].transforms.push("missing".to_string());
    match config.sanity_check() {
        Err(ShipConfigError::MissingTransform { route, name }) => {
            assert_eq!(route, "main");
            assert_eq!(name, "missing");
        }
        other => panic!("expected a missing-transform error, got {:?}", other),
    }

    let mut config = ship_config();
    config.routes[0].output = "missing".to_string();
    match config.sanity_check() {
        Err(ShipConfigError::MissingOutput { route, name }) => {
            assert_eq!(route, "main");
            assert_eq!(name, "missing");
        }
        other => panic!("expected a missing-output error, got {:?}", other),
    }
}

#[test]
fn globals_merge() {
    let args: Args = vec![("path".to_string(), ArgValue::Str("/tmp/log".to_string()))];
    let merged = merge_globals(
        args,
        &Globals {
            channel_size: 64,
            log_file: None,
        },
    );
    match args_get(&merged, "channel_size") {
        Some(ArgValue::Int(64)) => {}
        _ => panic!("channel_size should be merged in"),
    }
    assert!(matches!(
        args_get(&merged, "path"),
        Some(ArgValue::Str(_))
    ));

    // a local channel_size is replaced by the global one
    let mut args: Args = Vec::new();
    args_set(&mut args, "channel_size".to_string(), ArgValue::Int(5));
    let merged = merge_globals(
        args,
        &Globals {
            channel_size: 64,
            log_file: None,
        },
    );
    assert_eq!(merged.len(), 1);
    assert!(matches!(
        args_get(&merged, "channel_size"),
        Some(ArgValue::Int(64))
    ));
}

#[test]
fn registry_names() {
    assert!(known_plugin(PluginKind::Input, "file"));
    assert!(known_plugin(PluginKind::Input, "journald"));
    assert!(known_plugin(PluginKind::Input, "stdin"));
    assert!(known_plugin(PluginKind::Transform, "insert_field"));
    assert!(known_plugin(PluginKind::Transform, "insert_ts"));
    assert!(known_plugin(PluginKind::Transform, "python"));
    assert!(known_plugin(PluginKind::Output, "stdout"));
    assert!(known_plugin(PluginKind::Output, "tcp_socket"));
    assert!(known_plugin(PluginKind::Output, "unix_socket"));
    assert!(known_plugin(PluginKind::Output, "speed_test"));
    // the byte-file sink shares its name with the tailer; the role tells
    // them apart
    assert!(known_plugin(PluginKind::Output, "file"));
    assert!(!known_plugin(PluginKind::Transform, "file"));
    assert!(!known_plugin(PluginKind::Input, "stdout"));
    assert!(!known_plugin(PluginKind::Input, "nonsense"));
}

fn file_args() -> Args {
    vec![
        ("path".to_string(), ArgValue::Str("/tmp/log".to_string())),
        ("channel_size".to_string(), ArgValue::Int(16)),
    ]
}

#[test]
fn file_tailer_options() {
    let config = validate_file_args(&file_args()).unwrap();
    assert_eq!(config.path, "/tmp/log");
    assert_eq!(config.channel_size, 16);
    assert!(!config.from_beginning);
    assert!(!config.parse_json);
    assert!(config.state_file_dir.is_none());

    // the retired option is refused
    let mut args = file_args();
    args.push(("state_file".to_string(), ArgValue::Str("x".to_string())));
    assert!(matches!(validate_file_args(&args), Err(ArgError::Deprecated)));

    // path is required and must be a string
    let args: Args = vec![("channel_size".to_string(), ArgValue::Int(16))];
    assert!(matches!(validate_file_args(&args), Err(ArgError::Missing)));
    let mut args = file_args();
    args[0].1 = ArgValue::Int(3);
    assert!(matches!(validate_file_args(&args), Err(ArgError::WrongType)));

    // the flags must be booleans
    let mut args = file_args();
    args.push(("parse_json".to_string(), ArgValue::Str("yes".to_string())));
    assert!(matches!(validate_file_args(&args), Err(ArgError::WrongType)));

    // a negative channel size is unusable
    let mut args = file_args();
    args[1].1 = ArgValue::Int(-1);
    assert!(matches!(validate_file_args(&args), Err(ArgError::BadValue)));
}

#[test]
fn injector_options() {
    let args: Args = vec![
        ("field".to_string(), ArgValue::Str("host".to_string())),
        ("value".to_string(), ArgValue::Str("a".to_string())),
        ("channel_size".to_string(), ArgValue::Int(8)),
    ];
    let config = validate_insert_field_args(&args).unwrap();
    assert_eq!(config.field, "host");
    assert!(!config.overwrite);

    // an array is not a scalar value
    let args: Args = vec![
        ("field".to_string(), ArgValue::Str("host".to_string())),
        ("value".to_string(), ArgValue::Arr(vec![ArgValue::Int(1)])),
        ("channel_size".to_string(), ArgValue::Int(8)),
    ];
    assert!(matches!(validate_insert_field_args(&args), Err(ArgError::WrongType)));

    let args: Args = vec![
        ("ts_type".to_string(), ArgValue::Str("RFC2822".to_string())),
        ("channel_size".to_string(), ArgValue::Int(8)),
    ];
    let config = validate_insert_ts_args(&args).unwrap();
    assert_eq!(config.field, "t");
    assert_eq!(config.ts_type, TsType::Rfc2822);

    let args: Args = vec![
        ("ts_type".to_string(), ArgValue::Str("sundial".to_string())),
        ("channel_size".to_string(), ArgValue::Int(8)),
    ];
    assert!(matches!(validate_insert_ts_args(&args), Err(ArgError::BadValue)));

    assert_eq!(get_ts_field(&Vec::new()).unwrap(), "t");
}

fn journald_args(journal: Option<&str>) -> Args {
    let mut args: Args = vec![
        ("cursor_file".to_string(), ArgValue::Str("/var/cursor".to_string())),
        ("channel_size".to_string(), ArgValue::Int(8)),
    ];
    if let Some(j) = journal {
        args.push(("journal".to_string(), ArgValue::Str(j.to_string())));
    }
    args
}

#[test]
fn journald_options() {
    let config = validate_journald_args(&journald_args(None)).unwrap();
    assert_eq!(config.journal, "all");
    assert_eq!(config.cursor_file, "/var/cursor");
    assert!(!config.from_beginning);

    let config = validate_journald_args(&journald_args(Some("user"))).unwrap();
    assert_eq!(config.journal, "user");

    assert!(matches!(
        validate_journald_args(&journald_args(Some("kernel"))),
        Err(ArgError::BadValue)
    ));

    let no_cursor: Args = vec![("channel_size".to_string(), ArgValue::Int(8))];
    assert!(matches!(
        validate_journald_args(&no_cursor),
        Err(ArgError::Missing)
    ));
}

fn metrics_base() -> Args {
    vec![("channel_size".to_string(), ArgValue::Int(8))]
}

#[test]
fn metrics_options() {
    let config = validate_metrics_args(&metrics_base()).unwrap();
    assert!(config.cpu && config.memory && config.disk && config.net);
    assert_eq!(config.cpu_poll_secs, 5);
    assert_eq!(config.mem_poll_secs, 5);
    assert_eq!(config.disk_poll_secs, 30);
    assert_eq!(config.net_poll_secs, 5);

    let mut args = metrics_base();
    args.push(("metrics".to_string(), ArgValue::Str("cpu".to_string())));
    let config = validate_metrics_args(&args).unwrap();
    assert!(config.cpu && !config.memory && !config.disk && !config.net);

    let mut args = metrics_base();
    args.push((
        "metrics".to_string(),
        ArgValue::Arr(vec![
            ArgValue::Str("disk".to_string()),
            ArgValue::Str("net".to_string()),
        ]),
    ));
    let config = validate_metrics_args(&args).unwrap();
    assert!(!config.cpu && !config.memory && config.disk && config.net);

    let mut args = metrics_base();
    args.push((
        "metrics".to_string(),
        ArgValue::Arr(vec![ArgValue::Str("blah".to_string())]),
    ));
    assert!(matches!(
        validate_metrics_args(&args),
        Err(ArgError::BadValue)
    ));

    let mut args = metrics_base();
    args.push(("cpu_poll_secs".to_string(), ArgValue::Int(3)));
    assert!(matches!(
        validate_metrics_args(&args),
        Err(ArgError::BadValue)
    ));
}

#[test]
fn journald_runtime_decisions() {
    assert!(matches!(journal_seek_plan(true, None), SeekPlan::Head));
    assert!(matches!(
        journal_seek_plan(true, Some("c1".to_string())),
        SeekPlan::Head
    ));
    match journal_seek_plan(false, Some("c1".to_string())) {
        SeekPlan::AtCursor(c) => assert_eq!(c, "c1"),
        other => panic!("expected the saved cursor, got {:?}", other),
    }
    assert!(matches!(journal_seek_plan(false, None), SeekPlan::Current));

    let event = journal_entry_event(vec![
        ("_PID".to_string(), "42".to_string()),
        ("MESSAGE".to_string(), "hello".to_string()),
    ]);
    match event {
        log_ship::event::Event::Json(log_ship::json::JsonData::Obj(fields)) => {
            assert_eq!(fields.len(), 2);
            assert_eq!(fields[0].0, "_PID");
            assert!(matches!(&fields[0].1, log_ship::json::JsonData::Str(s) if s == "42"));
            assert_eq!(fields[1].0, "MESSAGE");
            assert!(matches!(&fields[1].1, log_ship::json::JsonData::Str(s) if s == "hello"));
        }
        _ => panic!("expected a structured event"),
    }
}

#[test]
fn unknown_options_rejected() {
    let mut args = file_args();
    args.push(("colour".to_string(), ArgValue::Bool(true)));
    assert!(matches!(
        validate_file_args(&args),
        Err(ArgError::Unrecognized)
    ));

    let args: Args = vec![
        ("parse_json".to_string(), ArgValue::Bool(true)),
        ("path".to_string(), ArgValue::Str("x".to_string())),
        ("channel_size".to_string(), ArgValue::Int(8)),
    ];
    assert!(matches!(
        validate_stdin_args(&args),
        Err(ArgError::Unrecognized)
    ));

    let mut args = journald_args(None);
    args.push(("state_file_dir".to_string(), ArgValue::Str("x".to_string())));
    assert!(matches!(
        validate_journald_args(&args),
        Err(ArgError::Unrecognized)
    ));

    let mut args = metrics_base();
    args.push(("interval".to_string(), ArgValue::Int(10)));
    assert!(matches!(
        validate_metrics_args(&args),
        Err(ArgError::Unrecognized)
    ));
}

#[test]
fn stdin_options() {
    let args: Args = vec![("channel_size".to_string(), ArgValue::Int(8))];
    let config = validate_stdin_args(&args).unwrap();
    assert!(!config.parse_json);
    assert_eq!(config.channel_size, 8);

    let args: Args = vec![
        ("parse_json".to_string(), ArgValue::Bool(true)),
        ("channel_size".to_string(), ArgValue::Int(8)),
    ];
    assert!(validate_stdin_args(&args).unwrap().parse_json);

    // a non-boolean parse_json is an error, not a silent default
    let args: Args = vec![
        ("parse_json".to_string(), ArgValue::Str("yes".to_string())),
        ("channel_size".to_string(), ArgValue::Int(8)),
    ];
    assert!(matches!(
        validate_stdin_args(&args),
        Err(ArgError::WrongType)
    ));
}

#[test]
fn python_options() {
    let args: Args = vec![
        ("path".to_string(), ArgValue::Str("/opt/filter.py".to_string())),
        ("arg_type".to_string(), ArgValue::Str("dict".to_string())),
        ("channel_size".to_string(), ArgValue::Int(8)),
    ];
    let config = validate_python_args(&args).unwrap();
    assert_eq!(config.path, "/opt/filter.py");
    assert_eq!(config.function, "process");
    assert!(!config.wants_text);

    let args: Args = vec![
        ("path".to_string(), ArgValue::Str("/opt/filter.py".to_string())),
        ("function".to_string(), ArgValue::Str("munge".to_string())),
        ("arg_type".to_string(), ArgValue::Str("str".to_string())),
        ("channel_size".to_string(), ArgValue::Int(8)),
    ];
    let config = validate_python_args(&args).unwrap();
    assert_eq!(config.function, "munge");
    assert!(config.wants_text);

    // arg_type is required and must name a mode
    let args: Args = vec![
        ("path".to_string(), ArgValue::Str("/opt/filter.py".to_string())),
        ("channel_size".to_string(), ArgValue::Int(8)),
    ];
    assert!(matches!(
        validate_python_args(&args),
        Err(ArgError::Missing)
    ));
    let args: Args = vec![
        ("path".to_string(), ArgValue::Str("/opt/filter.py".to_string())),
        ("arg_type".to_string(), ArgValue::Str("tuple".to_string())),
        ("channel_size".to_string(), ArgValue::Int(8)),
    ];
    assert!(matches!(
        validate_python_args(&args),
        Err(ArgError::BadValue)
    ));
}

#[test]
fn file_output_options() {
    let args: Args = vec![
        ("path".to_string(), ArgValue::Str("/tmp/out.log".to_string())),
        ("channel_size".to_string(), ArgValue::Int(8)),
    ];
    let config = validate_file_output_args(&args).unwrap();
    assert_eq!(config.path, "/tmp/out.log");

    let args: Args = vec![("channel_size".to_string(), ArgValue::Int(8))];
    assert!(matches!(
        validate_file_output_args(&args),
        Err(ArgError::Missing)
    ));
}

#[test]
fn epoch_text() {
    assert_eq!(log_ship::std_utils::string2epoch("1647392005123"), Some(1647392005123));
    assert_eq!(log_ship::std_utils::string2epoch(""), None);
    assert_eq!(log_ship::std_utils::string2epoch("12x"), None);
    // u64::MAX plus one still fits the wide count
    assert_eq!(
        log_ship::std_utils::string2epoch("18446744073709551616"),
        Some(18446744073709551616)
    );
    // one past u128::MAX does not
    assert_eq!(
        log_ship::std_utils::string2epoch("340282366920938463463374607431768211456"),
        None
    );
}
