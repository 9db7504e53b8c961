//! Where the configuration is kept, and the check that a stored
//! configuration is one this library can read.

use vstd::prelude::*;

use crate::config::{RouterConfig, SCHEMA_VERSION};
use crate::text::decimal_spec;

verus! {

/// What `serde_json::from_slice::<serde_json::Value>` gives for JSON text
/// `bytes`, read through `Value::get(field)` and `Value::as_u64`: the
/// unsigned integer at `field`, if any; the error's message where the
/// bytes are not JSON.
pub uninterp spec fn json_u64_field(bytes: Seq<u8>, field: Seq<char>) -> Result<Option<u64>, Seq<char>>;

/// Calls `serde_json::from_slice::<serde_json::Value>`, then `Value::get`
/// and `Value::as_u64`, or the error's `to_string`; the contract claims only
/// that the result is the named function of the bytes and the field.
#[verifier::external_body]
fn read_u64_field(bytes: &[u8], field: &str) -> (r: Result<Option<u64>, String>)
    ensures
        match r {
            Ok(v) => json_u64_field(bytes@, field@) == Ok::<Option<u64>, Seq<char>>(v),
            Err(m) => json_u64_field(bytes@, field@) == Err::<Option<u64>, Seq<char>>(m@),
        },
{
    match serde_json::from_slice::<serde_json::Value>(bytes) {
        Ok(value) => Ok(value.get(field).and_then(|v| v.as_u64())),
        Err(error) => Err(error.to_string()),
    }
}

/// Why the configuration could not be loaded or saved.
#[derive(Debug)]
pub enum ConfigStoreError {
    /// Reading or writing the file failed; `not_found` where it does not
    /// exist.
    Io { message: String, not_found: bool },
    /// The file is not the JSON of a configuration.
    Json(String),
    /// The file was written by a newer version.
    UnsupportedSchema(u32),
    /// The configuration path has no directory.
    MissingPath,
}

impl ConfigStoreError {
    /// The error's message.
    pub open spec fn message_spec(&self) -> Seq<char> {
        match self {
            ConfigStoreError::Io { message, .. } => "io error: "@ + message@,
            ConfigStoreError::Json(m) => "json error: "@ + m@,
            ConfigStoreError::UnsupportedSchema(v) => "unsupported schema version: "@ + decimal_spec(
                *v as nat,
            ),
            ConfigStoreError::MissingPath => "config file has no path"@,
        }
    }

    /// The error's message.
    pub fn message(&self) -> (r: String)
        ensures
            r@ == self.message_spec(),
    {
        match self {
            ConfigStoreError::Io { message, .. } => {
                let mut s = String::from_str("io error: ");
                s.append(message.as_str());
                s
            },
            ConfigStoreError::Json(m) => {
                let mut s = String::from_str("json error: ");
                s.append(m.as_str());
                s
            },
            ConfigStoreError::UnsupportedSchema(v) => {
                let mut s = String::from_str("unsupported schema version: ");
                let d = crate::text::decimal(*v as u64);
                s.append(d.as_str());
                s
            },
            ConfigStoreError::MissingPath => String::from_str("config file has no path"),
        }
    }
}

/// The schema version a stored file declares: its `schema_version`, or
/// the current one where it declares none.
pub open spec fn declared_schema(field: Option<u64>) -> u64 {
    match field {
        Some(v) => v,
        None => SCHEMA_VERSION as u64,
    }
}

/// The configuration file.
#[derive(Debug, Clone)]
pub struct ConfigStore {
    path: String,
}

impl ConfigStore {
    /// The file's path.
    pub closed spec fn path_spec(&self) -> Seq<char> {
        self.path@
    }

    /// The configuration kept at `path`.
    pub fn new(path: &str) -> (r: Self)
        ensures
            r.path_spec() == path@,
    {
        ConfigStore { path: path.to_owned() }
    }

    /// The file's path.
    pub fn path(&self) -> (r: &str)
        ensures
            r@ == self.path_spec(),
    {
        self.path.as_str()
    }

    /// Checks what the file holds before it is read as a configuration:
    /// bytes that are not JSON are a `Json` error, and a `schema_version`
    /// newer than this library's is refused (the file is left as it is).
    pub fn check_stored(&self, bytes: &[u8]) -> (r: Result<(), ConfigStoreError>)
        ensures
            match json_u64_field(bytes@, "schema_version"@) {
                Err(m) => r matches Err(ConfigStoreError::Json(e)) && e@ == m,
                Ok(field) => if declared_schema(field) > SCHEMA_VERSION {
                    r matches Err(ConfigStoreError::UnsupportedSchema(v)) && v == declared_schema(
                        field,
                    ) as u32
                } else {
                    r is Ok
                },
            },
    {
        match read_u64_field(bytes, "schema_version") {
            Err(m) => Err(ConfigStoreError::Json(m)),
            Ok(field) => {
                let schema: u64 = match field {
                    Some(v) => v,
                    None => SCHEMA_VERSION as u64,
                };
                if schema > SCHEMA_VERSION as u64 {
                    Err(ConfigStoreError::UnsupportedSchema(schema as u32))
                } else {
                    Ok(())
                }
            },
        }
    }

    /// The loaded configuration, or the default one where loading failed.
    pub fn load_or_default(&self, loaded: Result<RouterConfig, ConfigStoreError>) -> (r: RouterConfig)
        ensures
            match loaded {
                Ok(c) => r == c,
                Err(_) => r.schema_version == SCHEMA_VERSION && r.rules@.len() == 0,
            },
    {
        match loaded {
            Ok(c) => c,
            Err(_) => RouterConfig { schema_version: SCHEMA_VERSION, rules: Vec::new() },
        }
    }
}

} // verus!
