//! Configuration checks, schema selection and JDBC URLs.

use vstd::prelude::*;
use crate::filters::{trimmed_nonblank, trimmed_nonblank_exec};
use crate::model::{views, AppConfig, DataSourceConfig, DatabaseSchema};
use crate::text::{
    chars_of, has_prefix, is_blank, owned, push_str, starts_with, string_of, sub_chars, trim,
    trim_chars, trim_seq,
};

verus! {

// ---------------------------------------------------------------------------
// Required settings
// ---------------------------------------------------------------------------

/// The message for a missing required setting.
pub open spec fn required_message(field: Seq<char>) -> Seq<char> {
    field + " is required."@
}

pub fn require_text(value: &str, field: &str) -> (r: Result<(), String>)
    ensures
        match r {
            Ok(()) => trim_seq(value@).len() > 0,
            Err(message) => trim_seq(value@).len() == 0 && message@ == required_message(field@),
        },
{
    if is_blank(value) {
        let mut message = owned(field);
        push_str(&mut message, " is required.");
        Err(message)
    } else {
        Ok(())
    }
}

/// The first problem of a configuration: a blank required setting, checked
/// in the order driver, url, username, password, output directory, file type;
/// then no schema that is not blank.
pub open spec fn config_problem(config: AppConfig) -> Option<Seq<char>> {
    if trim_seq(config.database.driver@).len() == 0 {
        Some(required_message("driver"@))
    } else if trim_seq(config.database.url@).len() == 0 {
        Some(required_message("url"@))
    } else if trim_seq(config.database.username@).len() == 0 {
        Some(required_message("username"@))
    } else if trim_seq(config.database.password@).len() == 0 {
        Some(required_message("password"@))
    } else if trim_seq(config.output.dir@).len() == 0 {
        Some(required_message("output.dir"@))
    } else if trim_seq(config.output.file_type@).len() == 0 {
        Some(required_message("file-type"@))
    } else if forall|i: int|
        0 <= i < config.schemas@.len() ==> trim_seq(#[trigger] config.schemas@[i]@).len() == 0 {
        Some("At least one schema is required."@)
    } else {
        None
    }
}

#[verifier::loop_isolation(false)]
pub fn validate_config(config: &AppConfig) -> (r: Result<(), String>)
    ensures
        match r {
            Ok(()) => config_problem(*config) is None,
            Err(message) => config_problem(*config) == Some(message@),
        },
{
    require_text(config.database.driver.as_str(), "driver")?;
    require_text(config.database.url.as_str(), "url")?;
    require_text(config.database.username.as_str(), "username")?;
    require_text(config.database.password.as_str(), "password")?;
    require_text(config.output.dir.as_str(), "output.dir")?;
    require_text(config.output.file_type.as_str(), "file-type")?;
    let mut i: usize = 0;
    while i < config.schemas.len()
        invariant
            i <= config.schemas@.len(),
            forall|k: int| 0 <= k < i ==> trim_seq(#[trigger] config.schemas@[k]@).len() == 0,
        decreases config.schemas@.len() - i,
    {
        if !is_blank(config.schemas[i].as_str()) {
            assert(trim_seq(config.schemas@[i as int]@).len() > 0);
            return Ok(());
        }
        i = i + 1;
    }
    Err(owned("At least one schema is required."))
}

/// The schemas to generate for: the configured names, trimmed, without blank
/// ones, in order.
pub fn selected_schemas(config: &AppConfig) -> (r: Vec<String>)
    ensures
        views(r@) == trimmed_nonblank(config.schemas@),
{
    trimmed_nonblank_exec(&config.schemas)
}

/// The output directory: the configured one, trimmed.
pub fn output_directory(config: &AppConfig) -> (r: String)
    ensures
        r@ == trim_seq(config.output.dir@),
{
    trim(config.output.dir.as_str())
}

// ---------------------------------------------------------------------------
// JDBC URLs
// ---------------------------------------------------------------------------

/// Whether `c` is an ASCII decimal digit.
pub open spec fn is_digit(c: char) -> bool {
    '0' <= c && c <= '9'
}

/// The value of a sequence of decimal digits.
pub open spec fn digits_value(s: Seq<char>) -> nat
    decreases s.len(),
{
    if s.len() == 0 {
        0
    } else {
        digits_value(s.drop_last()) * 10 + ((s.last() as u32) - 48) as nat
    }
}

/// The characters of `s` after an optional leading `+`.
pub open spec fn unsigned_digits(s: Seq<char>) -> Seq<char> {
    if s.len() > 0 && s[0] == '+' {
        s.drop_first()
    } else {
        s
    }
}

/// Every character of `s` is a decimal digit.
pub open spec fn all_digits(s: Seq<char>) -> bool {
    forall|i: int| 0 <= i < s.len() ==> is_digit(#[trigger] s[i])
}

/// A port number as written in decimal: an optional `+`, then at least one
/// digit and nothing else, with a value that fits in 16 bits.
pub open spec fn parse_port_seq(s: Seq<char>) -> Option<u16> {
    let d = unsigned_digits(s);
    if d.len() > 0 && all_digits(d) && digits_value(d) <= 65535 {
        Some(digits_value(d) as u16)
    } else {
        None
    }
}

proof fn lemma_digits_value_grows(s: Seq<char>, k: int)
    requires
        0 <= k <= s.len(),
        forall|i: int| 0 <= i < s.len() ==> is_digit(#[trigger] s[i]),
    ensures
        digits_value(s.take(k)) <= digits_value(s),
    decreases s.len() - k,
{
    if k < s.len() {
        let t = s.take(k + 1);
        assert(t.drop_last() =~= s.take(k));
        assert(is_digit(t.last()));
        lemma_digits_value_grows(s, k + 1);
    } else {
        assert(s.take(k) =~= s);
    }
}

#[verifier::loop_isolation(false)]
fn parse_port(s: &[char]) -> (r: Option<u16>)
    ensures
        r == parse_port_seq(s@),
{
    let start: usize = if s.len() > 0 && s[0] == '+' {
        1
    } else {
        0
    };
    let ghost d = unsigned_digits(s@);
    assert(d =~= s@.skip(start as int));
    if start >= s.len() {
        return None;
    }
    let mut value: u32 = 0;
    let mut i: usize = start;
    while i < s.len()
        invariant
            start <= i <= s@.len(),
            d =~= s@.skip(start as int),
            forall|k: int| start <= k < i ==> is_digit(#[trigger] s@[k]),
            value == digits_value(s@.subrange(start as int, i as int)),
            value <= 65535,
        decreases s@.len() - i,
    {
        let c = s[i];
        if !('0' <= c && c <= '9') {
            assert(!is_digit(d[i - start]));
            assert(!all_digits(d));
            return None;
        }
        let ghost sub = s@.subrange(start as int, i + 1);
        assert(sub.drop_last() =~= s@.subrange(start as int, i as int));
        let digit = (c as u32) - 48;
        let next = value * 10 + digit;
        if next > 65535 {
            proof {
                if all_digits(d) {
                    assert(d.take(i + 1 - start) =~= sub);
                    lemma_digits_value_grows(d, i + 1 - start);
                }
            }
            return None;
        }
        value = next;
        i = i + 1;
    }
    assert(s@.subrange(start as int, s@.len() as int) =~= d);
    Some(value as u16)
}

/// The characters of `s` before the first `/` or `?`.
pub open spec fn authority_seq(s: Seq<char>) -> Seq<char>
    decreases s.len(),
{
    if s.len() == 0 || s[0] == '/' || s[0] == '?' {
        Seq::empty()
    } else {
        seq![s[0]] + authority_seq(s.drop_first())
    }
}

/// The index of the last `c` in `s`.
pub open spec fn last_index_of(s: Seq<char>, c: char) -> Option<int>
    decreases s.len(),
{
    if s.len() == 0 {
        None
    } else if s.last() == c {
        Some(s.len() - 1)
    } else {
        last_index_of(s.drop_last(), c)
    }
}

/// A MySQL server address.
#[derive(Clone, Debug)]
pub struct MySqlEndpoint {
    pub host: String,
    pub port: u16,
}

/// The server address in a MySQL JDBC URL
/// `jdbc:mysql://host[:port][/database][?options]`, port 3306 by default;
/// or the message for a URL that is not one.
pub open spec fn mysql_endpoint_spec(url: Seq<char>) -> Result<(Seq<char>, u16), Seq<char>> {
    let t = trim_seq(url);
    let prefix = "jdbc:mysql://"@;
    if !has_prefix(t, prefix) {
        Err("Invalid MySQL JDBC URL."@)
    } else {
        let authority = authority_seq(t.skip(prefix.len() as int));
        if authority.len() == 0 {
            Err("Missing host in MySQL JDBC URL."@)
        } else {
            match last_index_of(authority, ':') {
                Some(k) => {
                    let port = authority.skip(k + 1);
                    match parse_port_seq(port) {
                        Some(p) => Ok((authority.take(k), p)),
                        None => Err("Invalid MySQL port in JDBC URL: "@ + port),
                    }
                },
                None => Ok((authority, 3306u16)),
            }
        }
    }
}

proof fn lemma_last_index_of(s: Seq<char>, c: char)
    ensures
        last_index_of(s, c) matches Some(k) ==> 0 <= k < s.len() && s[k] == c,
    decreases s.len(),
{
    if s.len() > 0 && s.last() != c {
        lemma_last_index_of(s.drop_last(), c);
    }
}

pub fn parse_mysql_jdbc_url(url: &str) -> (r: Result<MySqlEndpoint, String>)
    ensures
        match r {
            Ok(e) => mysql_endpoint_spec(url@) == Ok::<(Seq<char>, u16), Seq<char>>((e.host@, e.port)),
            Err(message) => mysql_endpoint_spec(url@) == Err::<(Seq<char>, u16), Seq<char>>(message@),
        },
{
    let v = chars_of(url);
    let t = trim_chars(v.as_slice());
    let prefix = chars_of("jdbc:mysql://");
    if !starts_with(t.as_slice(), prefix.as_slice()) {
        return Err(owned("Invalid MySQL JDBC URL."));
    }
    let rest = sub_chars(t.as_slice(), prefix.len(), t.len());
    assert(rest@ =~= t@.skip(prefix@.len() as int));
    let mut authority: Vec<char> = Vec::new();
    let mut i: usize = 0;
    assert(rest@.skip(0) =~= rest@);
    while i < rest.len() && rest[i] != '/' && rest[i] != '?'
        invariant
            i <= rest@.len(),
            authority@ == rest@.take(i as int),
            authority_seq(rest@) == authority@ + authority_seq(rest@.skip(i as int)),
        decreases rest@.len() - i,
    {
        assert(rest@.skip(i as int).drop_first() =~= rest@.skip(i + 1));
        assert(authority@.push(rest@[i as int]) =~= authority@ + seq![rest@[i as int]]);
        authority.push(rest[i]);
        assert(rest@.take(i + 1) =~= rest@.take(i as int).push(rest@[i as int]));
        i = i + 1;
    }
    assert(authority_seq(rest@.skip(i as int)) =~= Seq::<char>::empty());
    assert(authority@ =~= authority_seq(rest@));
    if authority.len() == 0 {
        return Err(owned("Missing host in MySQL JDBC URL."));
    }
    let mut k: usize = authority.len();
    assert(authority@.take(k as int) =~= authority@);
    while k > 0 && authority[k - 1] != ':'
        invariant
            k <= authority@.len(),
            last_index_of(authority@, ':') == last_index_of(authority@.take(k as int), ':'),
        decreases k,
    {
        assert(authority@.take(k as int).drop_last() =~= authority@.take(k - 1));
        k = k - 1;
    }
    if k == 0 {
        assert(authority@.take(0) =~= Seq::<char>::empty());
        return Ok(MySqlEndpoint { host: string_of(authority.as_slice()), port: 3306 });
    }
    assert(authority@.take(k as int).last() == ':');
    assert(last_index_of(authority@, ':') == Some(k - 1));
    let port_chars = sub_chars(authority.as_slice(), k, authority.len());
    assert(port_chars@ =~= authority@.skip(k as int));
    match parse_port(port_chars.as_slice()) {
        Some(port) => {
            let host = sub_chars(authority.as_slice(), 0, k - 1);
            assert(host@ =~= authority@.take(k - 1));
            Ok(MySqlEndpoint { host: string_of(host.as_slice()), port })
        },
        None => {
            let mut message = owned("Invalid MySQL port in JDBC URL: ");
            let p = string_of(port_chars.as_slice());
            push_str(&mut message, p.as_str());
            Err(message)
        },
    }
}

// ---------------------------------------------------------------------------
// Database inspectors
// ---------------------------------------------------------------------------

/// The connection settings are copied field by field.
pub open spec fn same_source(a: DataSourceConfig, b: DataSourceConfig) -> bool {
    a.driver@ == b.driver@ && a.url@ == b.url@ && a.username@ == b.username@ && a.password@
        == b.password@
}

fn copy_source(source: &DataSourceConfig) -> (r: DataSourceConfig)
    ensures
        same_source(r, *source),
{
    DataSourceConfig {
        driver: source.driver.clone(),
        url: source.url.clone(),
        username: source.username.clone(),
        password: source.password.clone(),
    }
}

/// Reads MySQL metadata.
#[derive(Clone, Debug)]
pub struct MySqlInspector {
    pub source: DataSourceConfig,
}

impl MySqlInspector {
    pub fn new(source: &DataSourceConfig) -> (r: Self)
        ensures
            same_source(r.source, *source),
    {
        MySqlInspector { source: copy_source(source) }
    }
}

/// Reads PostgreSQL metadata (not available yet).
#[derive(Clone, Debug)]
pub struct PostgresInspector {
    pub source: DataSourceConfig,
}

impl PostgresInspector {
    pub fn new(source: &DataSourceConfig) -> (r: Self)
        ensures
            same_source(r.source, *source),
    {
        PostgresInspector { source: copy_source(source) }
    }

    pub fn inspect_schema(&self, schema: &str) -> (r: Result<DatabaseSchema, String>)
        ensures
            match r {
                Ok(_) => false,
                Err(message) => message@
                    == "ForgeCore PostgreSQL metadata inspection is not implemented yet."@,
            },
    {
        Err(owned("ForgeCore PostgreSQL metadata inspection is not implemented yet."))
    }
}

/// Reads Oracle metadata (not available yet).
#[derive(Clone, Debug)]
pub struct OracleInspector {
    pub source: DataSourceConfig,
}

impl OracleInspector {
    pub fn new(source: &DataSourceConfig) -> (r: Self)
        ensures
            same_source(r.source, *source),
    {
        OracleInspector { source: copy_source(source) }
    }

    pub fn inspect_schema(&self, schema: &str) -> (r: Result<DatabaseSchema, String>)
        ensures
            match r {
                Ok(_) => false,
                Err(message) => message@
                    == "ForgeCore Oracle metadata inspection is not implemented yet."@,
            },
    {
        Err(owned("ForgeCore Oracle metadata inspection is not implemented yet."))
    }
}

/// The metadata reader for a database.
#[derive(Clone, Debug)]
pub enum DatabaseInspector {
    MySql(MySqlInspector),
    PostgreSql(PostgresInspector),
    Oracle(OracleInspector),
}

/// The database kinds by JDBC URL prefix.
pub open spec fn inspector_kind(url: Seq<char>) -> Option<int> {
    let t = trim_seq(url);
    if has_prefix(t, "jdbc:mysql://"@) {
        Some(0)
    } else if has_prefix(t, "jdbc:postgresql://"@) {
        Some(1)
    } else if has_prefix(t, "jdbc:oracle:"@) {
        Some(2)
    } else {
        None
    }
}

pub fn database_inspector(source: &DataSourceConfig) -> (r: Result<DatabaseInspector, String>)
    ensures
        match r {
            Ok(DatabaseInspector::MySql(i)) => inspector_kind(source.url@) == Some(0int)
                && same_source(i.source, *source),
            Ok(DatabaseInspector::PostgreSql(i)) => inspector_kind(source.url@) == Some(1int)
                && same_source(i.source, *source),
            Ok(DatabaseInspector::Oracle(i)) => inspector_kind(source.url@) == Some(2int)
                && same_source(i.source, *source),
            Err(message) => inspector_kind(source.url@) is None && message@
                == "Unsupported database URL. ForgeCore currently recognizes MySQL, PostgreSQL, and Oracle JDBC URLs."@,
        },
{
    let v = chars_of(source.url.as_str());
    let t = trim_chars(v.as_slice());
    if starts_with(t.as_slice(), chars_of("jdbc:mysql://").as_slice()) {
        return Ok(DatabaseInspector::MySql(MySqlInspector::new(source)));
    }
    if starts_with(t.as_slice(), chars_of("jdbc:postgresql://").as_slice()) {
        return Ok(DatabaseInspector::PostgreSql(PostgresInspector::new(source)));
    }
    if starts_with(t.as_slice(), chars_of("jdbc:oracle:").as_slice()) {
        return Ok(DatabaseInspector::Oracle(OracleInspector::new(source)));
    }
    Err(
        owned(
            "Unsupported database URL. ForgeCore currently recognizes MySQL, PostgreSQL, and Oracle JDBC URLs.",
        ),
    )
}

} // verus!
