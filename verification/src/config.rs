//! The store-side configuration: the fields the log store reads from its
//! own file, their defaults, and the pure part of its sanity check. The
//! file I/O around it lives outside the library.

use vstd::prelude::*;
use vstd::string::*;
use vstd::utf8::encode_utf8;

use crate::transforms::lower_byte;

verus! {

/// How a log entry's timestamp field is written.
#[derive(Copy, Clone, Debug, PartialEq, Eq, Structural)]
pub enum TimestampFormat {
    EPOCH,
    RFC2822,
    RFC3339,
}

/// The store's configuration, as plain values.
#[derive(Debug)]
pub struct ConfigFile {
    pub log_file: Option<String>,
    pub data_dir: String,
    pub retention_days: usize,
    pub unix_socket: Option<String>,
    pub tcp_input_address: Option<String>,
    pub syslog_address: Option<String>,
    pub syslog_protocol: String,
    pub web_address: String,
    pub timestamp_field: String,
    pub timestamp_format: TimestampFormat,
    /// Can be one of: `server`, `browser`.
    pub save_location: String,
}

/// A search a user saved under a name.
#[derive(Debug)]
pub struct SavedSearch {
    pub name: String,
    pub description: Option<String>,
    pub search_query: String,
}

/// A dashboard a user saved under a name.
#[derive(Debug)]
pub struct Dashboard {
    pub name: String,
    pub description: Option<String>,
    pub widgets: String,
}

pub fn default_syslog_protocol() -> (r: String)
    ensures
        r@ == "tcp"@,
{
    String::from_str("tcp")
}

pub fn default_web_address() -> (r: String)
    ensures
        r@ == "localhost:8181"@,
{
    String::from_str("localhost:8181")
}

/// Default to saving searches and dashboards on the server.
pub fn default_save_location() -> (r: String)
    ensures
        r@ == "server"@,
{
    String::from_str("server")
}

pub fn default_timestamp_field() -> (r: String)
    ensures
        r@ == "t"@,
{
    String::from_str("t")
}

pub fn default_timestamp_format() -> (r: TimestampFormat)
    ensures
        r == TimestampFormat::EPOCH,
{
    TimestampFormat::EPOCH
}

impl Default for ConfigFile {
    /// Creates the default configuration.
    fn default() -> (r: Self)
        ensures
            r.log_file is None,
            r.data_dir@ == "/var/lib/log-store"@,
            r.retention_days == 30,
            r.unix_socket matches Some(s) && s@ == "/tmp/log-store.socket"@,
            r.tcp_input_address matches Some(s) && s@ == "0.0.0.0:1234"@,
            r.syslog_address is None,
            r.syslog_protocol@ == "tcp"@,
            r.web_address@ == "localhost:8181"@,
            r.timestamp_field@ == "t"@,
            r.timestamp_format == TimestampFormat::EPOCH,
            r.save_location@ == "server"@,
    {
        ConfigFile {
            log_file: None,
            data_dir: String::from_str("/var/lib/log-store"),
            retention_days: 30,
            unix_socket: Some(String::from_str("/tmp/log-store.socket")),
            tcp_input_address: Some(String::from_str("0.0.0.0:1234")),
            syslog_address: None,
            syslog_protocol: default_syslog_protocol(),
            web_address: default_web_address(),
            timestamp_field: default_timestamp_field(),
            timestamp_format: default_timestamp_format(),
            save_location: default_save_location(),
        }
    }
}

/// Why the configuration was rejected.
#[derive(Debug, PartialEq, Eq, Structural)]
pub enum ConfigError {
    /// `retention_days` is zero.
    ZeroRetention,
    /// `save_location` is neither `server` nor `browser`.
    BadSaveLocation,
}

/// The ASCII-lowercased bytes of a text.
pub open spec fn lower_bytes(s: Seq<char>) -> Seq<u8> {
    encode_utf8(s).map_values(|b: u8| lower_byte(b))
}

/// Compares a text against an ASCII keyword without regard to case.
pub fn eq_ignore_ascii_case(s: &str, keyword: &str) -> (r: bool)
    ensures
        r == (lower_bytes(s@) == encode_utf8(keyword@)),
{
    let bytes = s.as_bytes_vec();
    let mut lowered: Vec<u8> = Vec::new();
    let mut i: usize = 0;
    while i < bytes.len()
        invariant
            i <= bytes@.len(),
            lowered@ =~= bytes@.subrange(0, i as int).map_values(|b: u8| lower_byte(b)),
        decreases bytes@.len() - i,
    {
        let b = bytes[i];
        lowered.push(
            if 65 <= b && b <= 90 {
                b + 32
            } else {
                b
            },
        );
        i = i + 1;
        proof {
            assert(lowered@ =~= bytes@.subrange(0, i as int).map_values(|b: u8| lower_byte(b)));
        }
    }
    proof {
        assert(bytes@.subrange(0, bytes@.len() as int) =~= bytes@);
    }
    let kw = keyword.as_bytes_vec();
    let mut j: usize = 0;
    if lowered.len() != kw.len() {
        proof {
            assert(lower_bytes(s@) != encode_utf8(keyword@));
        }
        return false;
    }
    while j < lowered.len()
        invariant
            lowered@ == lower_bytes(s@),
            kw@ == encode_utf8(keyword@),
            lowered@.len() == kw@.len(),
            j <= lowered@.len(),
            forall|t: int| 0 <= t < j ==> lowered@[t] == kw@[t],
        decreases lowered@.len() - j,
    {
        if lowered[j] != kw[j] {
            proof {
                assert(lowered@ != kw@);
            }
            return false;
        }
        j = j + 1;
    }
    proof {
        assert(lowered@ =~= kw@);
    }
    true
}

impl ConfigFile {
    /// The pure sanity rules of the store configuration: retention must not
    /// be zero, and the save location must be `server` or `browser`, read
    /// without regard to ASCII case. Whether the data directory and its
    /// files are writable is for the runtime around the library to try.
    pub fn sanity_check(&self) -> (r: Result<(), ConfigError>)
        ensures
            r == (if self.retention_days == 0 {
                Err::<(), ConfigError>(ConfigError::ZeroRetention)
            } else if lower_bytes(self.save_location@) != encode_utf8("server"@) && lower_bytes(
                self.save_location@,
            ) != encode_utf8("browser"@) {
                Err::<(), ConfigError>(ConfigError::BadSaveLocation)
            } else {
                Ok::<(), ConfigError>(())
            }),
    {
        if self.retention_days == 0 {
            return Err(ConfigError::ZeroRetention);
        }
        if !eq_ignore_ascii_case(self.save_location.as_str(), "server") && !eq_ignore_ascii_case(
            self.save_location.as_str(),
            "browser",
        ) {
            return Err(ConfigError::BadSaveLocation);
        }
        Ok(())
    }
}

} // verus!
