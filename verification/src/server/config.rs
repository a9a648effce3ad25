//! The reader service's configuration and the checks made on it.

use vstd::prelude::*;

use crate::text::{
    chars_of, is_ascii_alnum_or_underscore, push_all, push_str, string_of, trim, trim_str,
};

verus! {

/// Why the service configuration could not be used.
#[derive(Debug)]
pub enum ConfigError {
    Io(String),
    Parse(String),
    Invalid(String),
}

pub open spec fn invalid(e: ConfigError, msg: Seq<char>) -> bool {
    e matches ConfigError::Invalid(m) && m@ == msg
}

impl ConfigError {
    /// The message as the error is displayed.
    pub fn message(&self) -> (r: String)
        ensures
            r@ == match self {
                ConfigError::Io(m) => "config IO error: "@ + m@,
                ConfigError::Parse(m) => "config parse error: "@ + m@,
                ConfigError::Invalid(m) => "config invalid: "@ + m@,
            },
    {
        let mut out: Vec<char> = Vec::new();
        match self {
            ConfigError::Io(m) => {
                push_str(&mut out, "config IO error: ");
                push_str(&mut out, m.as_str());
            },
            ConfigError::Parse(m) => {
                push_str(&mut out, "config parse error: ");
                push_str(&mut out, m.as_str());
            },
            ConfigError::Invalid(m) => {
                push_str(&mut out, "config invalid: ");
                push_str(&mut out, m.as_str());
            },
        }
        string_of(&out)
    }
}

#[derive(Debug, Clone, Copy, PartialEq, Eq, Structural)]
pub enum AppMode {
    Dev,
    Prod,
}

#[derive(Debug, Clone, Copy, PartialEq, Eq, Structural)]
pub enum SqlDialect {
    Sqlite,
    Postgres,
}

#[derive(Debug)]
pub struct AppConfig {
    pub mode: AppMode,
    pub timezone: Option<String>,
}

#[derive(Debug)]
pub struct HttpConfig {
    pub host: String,
    pub port: u16,
}

#[derive(Debug)]
pub struct DatabaseConfig {
    pub dialect: String,
}

#[derive(Debug)]
pub struct SqliteConfig {
    pub path: String,
}

#[derive(Debug)]
pub struct PostgresConfig {
    pub host: String,
    pub port: u16,
    pub database: String,
    pub user: String,
    pub password: String,
    pub ssl_mode: String,
    pub schema: String,
    pub fetcher_schema: String,
}

#[derive(Debug)]
pub struct LoggingConfig {
    pub level: Option<String>,
}

#[derive(Debug)]
pub struct AuthConfig {
    pub token_ttl_seconds: u64,
}

#[derive(Debug)]
pub struct DevConfig {
    pub reset_on_start: bool,
}

#[derive(Debug)]
pub struct SeedConfig {
    pub username: String,
    pub password: String,
}

/// The whole service configuration.
#[derive(Debug)]
pub struct ServerConfig {
    pub app: AppConfig,
    pub http: HttpConfig,
    pub database: DatabaseConfig,
    pub sqlite: SqliteConfig,
    pub postgres: Option<PostgresConfig>,
    pub logging: LoggingConfig,
    pub auth: AuthConfig,
    pub dev: DevConfig,
    pub seed: SeedConfig,
}

/// What `str::to_lowercase` returns (Unicode lower case).
pub uninterp spec fn unicode_lower(s: Seq<char>) -> Seq<char>;

/// Calls `str::to_lowercase`.
#[verifier::external_body]
fn to_lowercase(s: &str) -> (r: String)
    ensures
        r@ == unicode_lower(s@),
{
    s.to_lowercase()
}

pub open spec fn dialect_result(raw: Seq<char>) -> Result<SqlDialect, Seq<char>> {
    let d = unicode_lower(trim(raw));
    if d == "sqlite"@ {
        Ok(SqlDialect::Sqlite)
    } else if d == "postgres"@ {
        Ok(SqlDialect::Postgres)
    } else {
        Err("invalid database.dialect '"@ + d + "'"@)
    }
}

pub open spec fn schema_name_result(raw: Seq<char>) -> Result<Seq<char>, Seq<char>> {
    let t = trim(raw);
    if t.len() == 0 {
        Err("postgres schema cannot be empty"@)
    } else if !(forall|i: int| 0 <= i < t.len() ==> is_ascii_alnum_or_underscore(#[trigger] t[i])) {
        Err("invalid postgres schema '"@ + t + "': only alphanumeric and '_' allowed"@)
    } else {
        Ok(t)
    }
}

impl ServerConfig {
    /// The SQL dialect named by `database.dialect`, read trimmed and in any
    /// case: `sqlite` or `postgres`.
    pub fn dialect(&self) -> (r: Result<SqlDialect, ConfigError>)
        ensures
            match dialect_result(self.database.dialect@) {
                Ok(d) => r == Ok::<SqlDialect, ConfigError>(d),
                Err(m) => r matches Err(e) && invalid(e, m),
            },
    {
        let t = trim_str(self.database.dialect.as_str());
        let ts = string_of(&t);
        let d = to_lowercase(ts.as_str());
        let dv = chars_of(d.as_str());
        if crate::text::eq_str(&dv, "sqlite") {
            Ok(SqlDialect::Sqlite)
        } else if crate::text::eq_str(&dv, "postgres") {
            Ok(SqlDialect::Postgres)
        } else {
            let mut msg: Vec<char> = Vec::new();
            push_str(&mut msg, "invalid database.dialect '");
            push_all(&mut msg, &dv);
            push_str(&mut msg, "'");
            Err(ConfigError::Invalid(string_of(&msg)))
        }
    }

    /// The SQLite file: `sqlite.path` (trimmed) under `base_dir`, or
    /// `server.sqlite` there when the path is empty.
    pub fn sqlite_path(&self, base_dir: &str) -> (r: String)
        ensures
            r@ == crate::config::paths::path_join(
                base_dir@,
                if trim(self.sqlite.path@).len() == 0 {
                    "server.sqlite"@
                } else {
                    trim(self.sqlite.path@)
                },
            ),
    {
        let raw = trim_str(self.sqlite.path.as_str());
        if raw.len() == 0 {
            return crate::config::paths::join(base_dir, "server.sqlite");
        }
        let rs = string_of(&raw);
        crate::config::paths::join(base_dir, rs.as_str())
    }
}

/// A Postgres schema name: trimmed, non-empty, ASCII letters, digits and
/// '_' only.
pub fn validate_schema_name(raw: &str) -> (r: Result<String, ConfigError>)
    ensures
        match schema_name_result(raw@) {
            Ok(t) => r matches Ok(s) && s@ == t,
            Err(m) => r matches Err(e) && invalid(e, m),
        },
{
    let t = trim_str(raw);
    if t.len() == 0 {
        return Err(ConfigError::Invalid(string_of(&chars_of("postgres schema cannot be empty"))));
    }
    let mut i: usize = 0;
    while i < t.len()
        invariant
            i <= t.len(),
            t@ == trim(raw@),
            t.len() > 0,
            forall|j: int| 0 <= j < i ==> is_ascii_alnum_or_underscore(#[trigger] t@[j]),
        decreases t.len() - i,
    {
        let c = t[i];
        if !(('a' <= c && c <= 'z') || ('A' <= c && c <= 'Z') || ('0' <= c && c <= '9') || c == '_') {
            assert(!is_ascii_alnum_or_underscore(t@[i as int]));
            let mut msg: Vec<char> = Vec::new();
            push_str(&mut msg, "invalid postgres schema '");
            push_all(&mut msg, &t);
            push_str(&mut msg, "': only alphanumeric and '_' allowed");
            return Err(ConfigError::Invalid(string_of(&msg)));
        }
        i = i + 1;
    }
    Ok(string_of(&t))
}


#[verifier::external_type_specification]
#[verifier::external_body]
pub struct ExJsonValue(serde_json::Value);

#[verifier::external_type_specification]
#[verifier::external_body]
pub struct ExTomlValue(toml::Value);

#[verifier::external_type_specification]
#[verifier::external_body]
pub struct ExValidator(jsonschema::Validator);

/// A JSON schema document and the text it was read from.
struct SchemaDoc {
    value: serde_json::Value,
    text: String,
}

impl SchemaDoc {
    closed spec fn source(&self) -> Seq<char> {
        self.text@
    }
}

/// A compiled schema and the text it was read from.
struct CompiledSchema {
    validator: jsonschema::Validator,
    text: String,
}

impl CompiledSchema {
    closed spec fn source(&self) -> Seq<char> {
        self.text@
    }
}

/// A TOML document and the text it was read from.
struct TomlDoc {
    value: toml::Value,
    text: String,
}

impl TomlDoc {
    closed spec fn source(&self) -> Seq<char> {
        self.text@
    }
}

/// A TOML document turned into JSON, and the TOML text it was read from.
struct TomlAsJson {
    value: serde_json::Value,
    text: String,
}

impl TomlAsJson {
    closed spec fn source(&self) -> Seq<char> {
        self.text@
    }
}

/// The text of the error `serde_json::from_str` gives for `text`, read as
/// JSON; `None` when it reads.
pub uninterp spec fn json_parse_error(text: Seq<char>) -> Option<Seq<char>>;

/// The text of the error `jsonschema::validator_for` gives for the schema
/// read from `schema`; `None` when it compiles.
pub uninterp spec fn schema_compile_error(schema: Seq<char>) -> Option<Seq<char>>;

/// The text of the error `toml::from_str` gives for `text`, read as a TOML
/// value; `None` when it reads.
pub uninterp spec fn toml_parse_error(text: Seq<char>) -> Option<Seq<char>>;

/// The text of the error `serde_json::to_value` gives for the TOML value
/// read from `text`; `None` when it converts.
pub uninterp spec fn toml_json_error(text: Seq<char>) -> Option<Seq<char>>;

/// The instance read from the TOML text `toml` meets the schema read from
/// `schema` (`Validator::iter_errors` yields nothing).
pub uninterp spec fn schema_accepts(schema: Seq<char>, toml: Seq<char>) -> bool;

/// Calls `serde_json::from_str`, keeping the text beside the value; the
/// error as text.
#[verifier::external_body]
fn json_from_str(s: &str) -> (r: Result<SchemaDoc, String>)
    ensures
        match json_parse_error(s@) {
            None => r matches Ok(d) && d.source() == s@,
            Some(m) => r matches Err(e) && e@ == m,
        },
{
    serde_json::from_str(s).map(|value| SchemaDoc { value, text: s.to_string() }).map_err(|e| e.to_string())
}

/// Calls `jsonschema::validator_for`; the error as text.
#[verifier::external_body]
fn compile_validator(schema: &SchemaDoc) -> (r: Result<CompiledSchema, String>)
    ensures
        match schema_compile_error(schema.source()) {
            None => r matches Ok(c) && c.source() == schema.source(),
            Some(m) => r matches Err(e) && e@ == m,
        },
{
    jsonschema::validator_for(&schema.value)
        .map(|validator| CompiledSchema { validator, text: schema.text.clone() })
        .map_err(|e| e.to_string())
}

/// Calls `toml::from_str` into a `toml::Value`, keeping the text beside the
/// value; the error as text.
#[verifier::external_body]
fn toml_value(s: &str) -> (r: Result<TomlDoc, String>)
    ensures
        match toml_parse_error(s@) {
            None => r matches Ok(d) && d.source() == s@,
            Some(m) => r matches Err(e) && e@ == m,
        },
{
    toml::from_str::<toml::Value>(s).map(|value| TomlDoc { value, text: s.to_string() }).map_err(|e| e.to_string())
}

/// Calls `serde_json::to_value` on a TOML value; the error as text.
#[verifier::external_body]
fn toml_to_json(v: TomlDoc) -> (r: Result<TomlAsJson, String>)
    ensures
        match toml_json_error(v.source()) {
            None => r matches Ok(j) && j.source() == v.source(),
            Some(m) => r matches Err(e) && e@ == m,
        },
{
    let TomlDoc { value, text } = v;
    serde_json::to_value(value).map(|value| TomlAsJson { value, text }).map_err(|e| e.to_string())
}

/// The texts of the errors `Validator::iter_errors` yields, in its order;
/// it yields some exactly when the instance breaks the schema.
#[verifier::external_body]
fn schema_errors(compiled: &CompiledSchema, v: &TomlAsJson) -> (r: Vec<String>)
    ensures
        r.len() == 0 <==> schema_accepts(compiled.source(), v.source()),
{
    compiled.validator.iter_errors(&v.value).map(|e| e.to_string()).collect()
}

/// The first `n` messages (all of them when there are fewer).
fn first_messages(all: &Vec<String>, n: usize) -> (r: Vec<String>)
    ensures
        r.len() == if all.len() < n {
            all.len()
        } else {
            n
        },
        crate::config::error::strs(r@) == crate::config::error::strs(all@).take(
            if all.len() < n {
                all.len() as int
            } else {
                n as int
            },
        ),
{
    let end = if all.len() < n {
        all.len()
    } else {
        n
    };
    let mut out: Vec<String> = Vec::new();
    let mut i: usize = 0;
    while i < end
        invariant
            i <= end <= all.len(),
            out.len() == i,
            crate::config::error::strs(out@) == crate::config::error::strs(all@).take(i as int),
        decreases end - i,
    {
        let c = crate::config::error::copy_str(&all[i]);
        out.push(c);
        proof {
            assert(crate::config::error::strs(out@) =~= crate::config::error::strs(all@).take(i + 1));
        }
        i = i + 1;
    }
    out
}

/// The messages joined by `; `.
pub open spec fn joined(ms: Seq<Seq<char>>) -> Seq<char>
    decreases ms.len(),
{
    if ms.len() == 0 {
        Seq::empty()
    } else if ms.len() == 1 {
        ms[0]
    } else {
        joined(ms.drop_last()) + "; "@ + ms.last()
    }
}

/// The outcome of validating the file `name` against its schema, given
/// the first validation errors: none is success; otherwise the error lists
/// them.
pub fn validation_report(name: &str, messages: &Vec<String>) -> (r: Result<(), ConfigError>)
    ensures
        messages.len() == 0 ==> r is Ok,
        messages.len() > 0 ==> (r matches Err(e) && invalid(
            e,
            "schema validation failed for "@ + name@ + ": "@ + joined(crate::config::error::strs(messages@)),
        )),
{
    if messages.len() == 0 {
        return Ok(());
    }
    let ghost ms = crate::config::error::strs(messages@);
    let mut list: Vec<char> = Vec::new();
    let mut i: usize = 0;
    proof {
        assert(ms.take(0) =~= Seq::<Seq<char>>::empty());
    }
    while i < messages.len()
        invariant
            i <= messages.len(),
            ms == crate::config::error::strs(messages@),
            list@ == joined(ms.take(i as int)),
        decreases messages.len() - i,
    {
        proof {
            assert(ms.take(i + 1).drop_last() =~= ms.take(i as int));
            assert(ms.take(i + 1).last() == messages@[i as int]@);
        }
        if i > 0 {
            push_str(&mut list, "; ");
        } else {
            proof {
                assert(ms.take(1)[0] == messages@[0]@);
            }
        }
        push_str(&mut list, messages[i].as_str());
        i = i + 1;
        proof {
            if i == 1 {
                assert(list@ =~= joined(ms.take(1)));
            }
        }
    }
    proof {
        assert(ms.take(messages.len() as int) =~= ms);
    }
    let mut msg: Vec<char> = Vec::new();
    push_str(&mut msg, "schema validation failed for ");
    push_str(&mut msg, name);
    push_str(&mut msg, ": ");
    push_all(&mut msg, &list);
    Err(ConfigError::Invalid(string_of(&msg)))
}

/// Checks the TOML text `toml_input` (the file `name`) against the JSON
/// schema `schema`: the schema must parse and compile, the TOML must parse
/// and convert to JSON, and at most the first five validation errors are
/// reported (see `validation_report`).
pub fn validate_toml(schema: &str, toml_input: &str, name: &str) -> (r: Result<(), ConfigError>)
    ensures
        match json_parse_error(schema@) {
            Some(m) => r matches Err(e) && invalid(e, "schema parse error: "@ + m),
            None => match schema_compile_error(schema@) {
                Some(m) => r matches Err(e) && invalid(e, "schema compile error: "@ + m),
                None => match toml_parse_error(toml_input@) {
                    Some(m) => r matches Err(e) && invalid(e, name@ + ": "@ + m),
                    None => match toml_json_error(toml_input@) {
                        Some(m) => r matches Err(e) && invalid(e, m),
                        None => if schema_accepts(schema@, toml_input@) {
                            r is Ok
                        } else {
                            r matches Err(e) && e matches ConfigError::Invalid(msg) && (
                            "schema validation failed for "@ + name@ + ": "@).is_prefix_of(msg@)
                        },
                    },
                },
            },
        },
{
    let schema_json = match json_from_str(schema) {
        Ok(v) => v,
        Err(e) => {
            let mut msg: Vec<char> = Vec::new();
            push_str(&mut msg, "schema parse error: ");
            push_str(&mut msg, e.as_str());
            return Err(ConfigError::Invalid(string_of(&msg)));
        },
    };
    let compiled = match compile_validator(&schema_json) {
        Ok(v) => v,
        Err(e) => {
            let mut msg: Vec<char> = Vec::new();
            push_str(&mut msg, "schema compile error: ");
            push_str(&mut msg, e.as_str());
            return Err(ConfigError::Invalid(string_of(&msg)));
        },
    };
    let tv = match toml_value(toml_input) {
        Ok(v) => v,
        Err(e) => {
            let mut msg: Vec<char> = Vec::new();
            push_str(&mut msg, name);
            push_str(&mut msg, ": ");
            push_str(&mut msg, e.as_str());
            return Err(ConfigError::Invalid(string_of(&msg)));
        },
    };
    let jv = match toml_to_json(tv) {
        Ok(v) => v,
        Err(e) => return Err(ConfigError::Invalid(e)),
    };
    let all = schema_errors(&compiled, &jv);
    let messages = first_messages(&all, 5);
    validation_report(name, &messages)
}


/// The listening address `host:port`.
pub fn bind_address(http: &HttpConfig) -> (r: String)
    ensures
        r@ == http.host@ + seq![':'] + crate::text::dec(http.port as nat),
{
    let mut v: Vec<char> = Vec::new();
    push_str(&mut v, http.host.as_str());
    v.push(':');
    let p = crate::text::u64_dec(http.port as u64);
    push_all(&mut v, &p);
    string_of(&v)
}

/// The log filter: the configured level (`info` when unset), trimmed.
pub fn log_level(logging: &LoggingConfig) -> (r: String)
    ensures
        r@ == trim(
            match logging.level {
                Some(l) => l@,
                None => "info"@,
            },
        ),
{
    let raw: &str = match &logging.level {
        Some(l) => l.as_str(),
        None => "info",
    };
    string_of(&trim_str(raw))
}

} // verus!
