//! The licensing service's requests and answers: where a request goes and
//! with which token, and how a JSON answer is read into license records.
//!
//! A JSON value is held as plain data (`JsonValue`): a number keeps what
//! the reader asks of it (whether it is an `i64` or a `u64`, and its
//! writing); an object keeps its fields in order, each key once.
use vstd::prelude::*;

use crate::license_models::{
    DeviceRecord, LicenseApiResponse, LicenseCheckInput, LicenseConfig, LicenseError, LicenseRecord, Moment,
};
use crate::local_license::{parse_rfc3339, rfc3339_instant};
use crate::text::{
    chars_of, decimal, decimal_string, opt_or_empty, opt_text_or_empty, str_to_string, is_blank, is_blank_str, opt_view, replace, replace_str, str_eq, string_of, strip_leading, strip_trailing,
    strip_trailing_chars, to_uppercase_str, trim, trim_str, unicode_upper,
};

verus! {

broadcast use vstd::string::group_string_axioms;

/// A JSON number: as an `i64` and as a `u64` where it is one, and its
/// writing.
#[derive(Debug, Clone)]
pub struct JsonNumber {
    pub as_i64: Option<i64>,
    pub as_u64: Option<u64>,
    pub text: String,
}

/// A JSON value.  An object holds its keys and, at the same positions,
/// their values.
#[derive(Debug)]
pub enum JsonValue {
    Null,
    Bool(bool),
    Number(JsonNumber),
    Text(String),
    Array(Vec<JsonValue>),
    Object(Vec<String>, Vec<JsonValue>),
}

// ---------------------------------------------------------------------------
// Requests
// ---------------------------------------------------------------------------

/// The address of an endpoint: the base without trailing slashes, one
/// slash, the endpoint without leading slashes.
pub open spec fn endpoint_url(base_url: Seq<char>, endpoint: Seq<char>) -> Seq<char> {
    strip_trailing(base_url, '/') + "/"@ + strip_leading(endpoint, '/')
}

pub fn api_url(config: &LicenseConfig, endpoint: &str) -> (r: String)
    ensures
        r@ == endpoint_url(config.base_url@, endpoint@),
{
    let mut out = strip_trailing_chars(&chars_of(config.base_url.as_str()), '/');
    crate::text::append_str(&mut out, "/");
    let tail = crate::legacy_import::strip_leading_chars(&chars_of(endpoint), '/');
    crate::text::append_chars(&mut out, &tail);
    string_of(&out)
}

/// No request is made without a base address.
pub fn guard(config: &LicenseConfig) -> (r: Result<(), LicenseError>)
    ensures
        r is Ok <==> !is_blank(config.base_url@),
        r matches Err(e) ==> (e matches LicenseError::Config(m) && m@ == "base_url da licença não informada"@),
{
    if is_blank_str(config.base_url.as_str()) {
        Err(LicenseError::Config("base_url da licença não informada".to_string()))
    } else {
        Ok(())
    }
}

/// The token a request carries: the configured one where it is not blank.
pub open spec fn bearer_of(token: Option<Seq<char>>) -> Option<Seq<char>> {
    match token {
        Some(t) => if is_blank(t) {
            None
        } else {
            Some(t)
        },
        None => None,
    }
}

pub fn bearer_token(config: &LicenseConfig) -> (r: Option<String>)
    ensures
        opt_view(r) == bearer_of(opt_view(config.api_token)),
{
    match &config.api_token {
        Some(t) => if is_blank_str(t.as_str()) {
            None
        } else {
            Some(t.clone())
        },
        None => None,
    }
}

/// Where the status of a company is asked: the status endpoint with the
/// document in place of `{document}`; refused without a base address.
pub fn status_url(config: &LicenseConfig, document: &str) -> (r: Result<String, LicenseError>)
    ensures
        r is Ok <==> !is_blank(config.base_url@),
        r matches Ok(u) ==> u@ == endpoint_url(
            config.base_url@,
            replace(config.status_endpoint@, "{document}"@, document@),
        ),
{
    match guard(config) {
        Err(e) => Err(e),
        Ok(()) => {
            proof {
                reveal_strlit("{document}");
            }
            let endpoint = replace_str(config.status_endpoint.as_str(), "{document}", document);
            Ok(api_url(config, endpoint.as_str()))
        },
    }
}

/// Where a device is renamed: the update endpoint with the device's
/// identifier in place of `{id}`; refused without a base address.
pub fn update_device_url(config: &LicenseConfig, device_id: &str) -> (r: Result<String, LicenseError>)
    ensures
        r is Ok <==> !is_blank(config.base_url@),
        r matches Ok(u) ==> u@ == endpoint_url(config.base_url@, replace(config.update_device_endpoint@, "{id}"@, device_id@)),
{
    match guard(config) {
        Err(e) => Err(e),
        Ok(()) => {
            proof {
                reveal_strlit("{id}");
            }
            let endpoint = replace_str(config.update_device_endpoint.as_str(), "{id}", device_id);
            Ok(api_url(config, endpoint.as_str()))
        },
    }
}

// ---------------------------------------------------------------------------
// Lookups
// ---------------------------------------------------------------------------

/// The keys and values of an object.
pub type Fields = (Seq<String>, Seq<JsonValue>);

/// The keys and values of an object; none for another value.
pub open spec fn obj_fields(v: JsonValue) -> Option<Fields> {
    match v {
        JsonValue::Object(k, w) => Some((k@, w@)),
        _ => None,
    }
}

/// Where the key stands among the keys from `i` on.
pub open spec fn key_index(keys: Seq<String>, key: Seq<char>, i: int) -> Option<int>
    decreases keys.len() - i,
{
    if i < 0 || i >= keys.len() {
        None
    } else if keys[i]@ == key {
        Some(i)
    } else {
        key_index(keys, key, i + 1)
    }
}

/// The value of the field named `key`.
pub open spec fn field_of(fields: Fields, key: Seq<char>) -> Option<JsonValue> {
    match key_index(fields.0, key, 0) {
        Some(i) => if i < fields.1.len() {
            Some(fields.1[i])
        } else {
            None
        },
        None => None,
    }
}

/// The value of the first of the keys that is present.
pub open spec fn first_present(fields: Fields, keys: Seq<Seq<char>>) -> Option<JsonValue>
    decreases keys.len(),
{
    if keys.len() == 0 {
        None
    } else {
        match field_of(fields, keys[0]) {
            Some(v) => Some(v),
            None => first_present(fields, keys.drop_first()),
        }
    }
}

/// A value's text, where it is a string.
pub open spec fn text_of(v: Option<JsonValue>) -> Option<Seq<char>> {
    match v {
        Some(JsonValue::Text(s)) => Some(s@),
        _ => None,
    }
}

/// A value as an `i64`, where it is a number that is one.
pub open spec fn i64_of(v: Option<JsonValue>) -> Option<i64> {
    match v {
        Some(JsonValue::Number(n)) => n.as_i64,
        _ => None,
    }
}

/// The first of the keys whose value is a number that is a `u64`.
pub open spec fn first_u64(fields: Fields, keys: Seq<Seq<char>>) -> Option<u64>
    decreases keys.len(),
{
    if keys.len() == 0 {
        None
    } else {
        match field_of(fields, keys[0]) {
            Some(JsonValue::Number(n)) => match n.as_u64 {
                Some(u) => Some(u),
                None => first_u64(fields, keys.drop_first()),
            },
            _ => first_u64(fields, keys.drop_first()),
        }
    }
}

pub open spec fn str_keys(keys: Seq<&str>) -> Seq<Seq<char>> {
    keys.map_values(|k: &str| k@)
}

/// The value of the field named `key`.
pub fn json_get<'a>(keys: &'a Vec<String>, values: &'a Vec<JsonValue>, key: &str) -> (r: Option<&'a JsonValue>)
    ensures
        match r {
            Some(v) => field_of((keys@, values@), key@) == Some(*v),
            None => field_of((keys@, values@), key@) is None,
        },
{
    let mut i: usize = 0;
    while i < keys.len()
        invariant
            i <= keys@.len(),
            key_index(keys@, key@, 0) == key_index(keys@, key@, i as int),
        decreases keys@.len() - i,
    {
        if str_eq(keys[i].as_str(), key) {
            if i < values.len() {
                return Some(&values[i]);
            } else {
                return None;
            }
        }
        i = i + 1;
    }
    None
}

/// The value of the first of the keys that is present.
pub fn first_present_exec<'a>(keys: &'a Vec<String>, values: &'a Vec<JsonValue>, names: &Vec<&str>) -> (r: Option<&'a JsonValue>)
    ensures
        match r {
            Some(v) => first_present((keys@, values@), str_keys(names@)) == Some(*v),
            None => first_present((keys@, values@), str_keys(names@)) is None,
        },
{
    let ghost ks = str_keys(names@);
    let ghost f = (keys@, values@);
    let mut i: usize = 0;
    proof {
        assert(ks.skip(0) =~= ks);
    }
    while i < names.len()
        invariant
            i <= names@.len(),
            ks == str_keys(names@),
            f == (keys@, values@),
            first_present(f, ks) == first_present(f, ks.skip(i as int)),
        decreases names@.len() - i,
    {
        proof {
            assert(ks.skip(i as int)[0] == names@[i as int]@);
            assert(ks.skip(i as int).drop_first() =~= ks.skip(i + 1));
        }
        match json_get(keys, values, names[i]) {
            Some(v) => {
                return Some(v);
            },
            None => {},
        }
        i = i + 1;
    }
    None
}

/// The first of the keys whose value is a number that is a `u64`.
pub fn first_u64_exec(keys: &Vec<String>, values: &Vec<JsonValue>, names: &Vec<&str>) -> (r: Option<u64>)
    ensures
        r == first_u64((keys@, values@), str_keys(names@)),
{
    let ghost ks = str_keys(names@);
    let ghost f = (keys@, values@);
    let mut i: usize = 0;
    proof {
        assert(ks.skip(0) =~= ks);
    }
    while i < names.len()
        invariant
            i <= names@.len(),
            ks == str_keys(names@),
            f == (keys@, values@),
            first_u64(f, ks) == first_u64(f, ks.skip(i as int)),
        decreases names@.len() - i,
    {
        proof {
            assert(ks.skip(i as int)[0] == names@[i as int]@);
            assert(ks.skip(i as int).drop_first() =~= ks.skip(i + 1));
        }
        match json_get(keys, values, names[i]) {
            Some(JsonValue::Number(n)) => match n.as_u64 {
                Some(u) => {
                    return Some(u);
                },
                None => {},
            },
            _ => {},
        }
        i = i + 1;
    }
    None
}

fn text_of_exec(v: Option<&JsonValue>) -> (r: Option<String>)
    ensures
        opt_view(r) == text_of(match v {
            Some(x) => Some(*x),
            None => None,
        }),
{
    match v {
        Some(JsonValue::Text(s)) => Some(s.clone()),
        _ => None,
    }
}

// ---------------------------------------------------------------------------
// Scalars
// ---------------------------------------------------------------------------

/// The words that read as true, once trimmed and upper-cased.
pub open spec fn true_word(w: Seq<char>) -> bool {
    w == "1"@ || w == "TRUE"@ || w == "T"@ || w == "Y"@ || w == "YES"@ || w == "S"@ || w == "SIM"@
}

/// A flag as the service writes it: a boolean; a number other than zero
/// (as an `i64`, else zero); a word that reads as true.
pub open spec fn bool_of(v: JsonValue) -> bool {
    match v {
        JsonValue::Bool(b) => b,
        JsonValue::Number(n) => match n.as_i64 {
            Some(i) => i != 0,
            None => false,
        },
        JsonValue::Text(s) => true_word(unicode_upper(trim(s@))),
        _ => false,
    }
}

pub fn parse_bool(value: &JsonValue) -> (r: bool)
    ensures
        r == bool_of(*value),
{
    match value {
        JsonValue::Bool(b) => *b,
        JsonValue::Number(n) => match n.as_i64 {
            Some(i) => i != 0,
            None => false,
        },
        JsonValue::Text(s) => {
            let t = trim_str(s.as_str());
            let up = to_uppercase_str(t.as_str());
            let u = up.as_str();
            str_eq(u, "1") || str_eq(u, "TRUE") || str_eq(u, "T") || str_eq(u, "Y") || str_eq(u, "YES")
                || str_eq(u, "S") || str_eq(u, "SIM")
        },
        _ => false,
    }
}

/// A value written as text: a string as it is, a number as written, a
/// boolean as `true` or `false`, anything else as the empty text.
pub open spec fn stringified(v: JsonValue) -> Seq<char> {
    match v {
        JsonValue::Text(s) => s@,
        JsonValue::Number(n) => n.text@,
        JsonValue::Bool(b) => if b {
            "true"@
        } else {
            "false"@
        },
        _ => seq![],
    }
}

pub fn stringify_value(value: &JsonValue) -> (r: String)
    ensures
        r@ == stringified(*value),
{
    match value {
        JsonValue::Text(s) => s.clone(),
        JsonValue::Number(n) => n.text.clone(),
        JsonValue::Bool(b) => if *b {
            "true".to_string()
        } else {
            "false".to_string()
        },
        _ => String::new(),
    }
}

/// A flag read from the first of two keys present, else the default.
pub open spec fn flag_of(fields: Fields, a: Seq<char>, b: Seq<char>, default: bool) -> bool {
    match first_present(fields, seq![a, b]) {
        Some(v) => bool_of(v),
        None => default,
    }
}

fn flag_exec(keys: &Vec<String>, values: &Vec<JsonValue>, a: &str, b: &str, default: bool) -> (r: bool)
    ensures
        r == flag_of((keys@, values@), a@, b@, default),
{
    let names = vec![a, b];
    proof {
        assert(str_keys(names@) =~= seq![a@, b@]);
    }
    match first_present_exec(keys, values, &names) {
        Some(v) => parse_bool(v),
        None => default,
    }
}

// ---------------------------------------------------------------------------
// Request bodies
// ---------------------------------------------------------------------------

/// The value is the text `s`.
pub open spec fn is_text(v: JsonValue, s: Seq<char>) -> bool {
    v matches JsonValue::Text(t) && t@ == s
}

/// The value is the number `n`.
pub open spec fn is_count(v: JsonValue, n: u32) -> bool {
    v matches JsonValue::Number(x) && x.as_i64 == Some(n as i64) && x.as_u64 == Some(n as u64) && x.text@
        == decimal(n as nat)
}

fn text_value(s: &str) -> (r: JsonValue)
    ensures
        is_text(r, s@),
{
    JsonValue::Text(str_to_string(s))
}

fn count_value(n: u32) -> (r: JsonValue)
    ensures
        is_count(r, n),
{
    JsonValue::Number(JsonNumber { as_i64: Some(n as i64), as_u64: Some(n as u64), text: decimal_string(n as u64) })
}

/// The body that registers a company: registered at `registered_at`, its
/// license due at `due_at` and its monthly fee on day `due_day`, active,
/// not blocked, one machine, named after the input.
pub fn register_company_body(input: &LicenseCheckInput, registered_at: &str, due_at: &str, due_day: u32) -> (r:
    JsonValue)
    ensures
        r matches JsonValue::Object(k, v) && k@.len() == 11 && v@.len() == 11
            && k@[0]@ == "DATACAD"@ && is_text(v@[0], registered_at@)
            && k@[1]@ == "CNPJ"@ && is_text(v@[1], input.company_document@)
            && k@[2]@ == "RAZAOSOCIAL"@ && is_text(v@[2], opt_or_empty(input.company_name))
            && k@[3]@ == "EMP_NOMEFANTASIA"@ && is_text(v@[3], opt_or_empty(input.company_name))
            && k@[4]@ == "ATIVO"@ && is_text(v@[4], "S"@)
            && k@[5]@ == "BLOQUEADO"@ && is_text(v@[5], "N"@)
            && k@[6]@ == "DATA_VAL_LIC"@ && is_text(v@[6], due_at@)
            && k@[7]@ == "dia_venc_mensalidade"@ && is_count(v@[7], due_day)
            && k@[8]@ == "n_maquinas"@ && is_count(v@[8], 1)
            && k@[9]@ == "EMP_SERIE"@ && is_text(v@[9], input.app_id@)
            && k@[10]@ == "emp_obs"@ && is_text(v@[10], input.app_name@),
{
    let keys = vec![
        str_to_string("DATACAD"),
        str_to_string("CNPJ"),
        str_to_string("RAZAOSOCIAL"),
        str_to_string("EMP_NOMEFANTASIA"),
        str_to_string("ATIVO"),
        str_to_string("BLOQUEADO"),
        str_to_string("DATA_VAL_LIC"),
        str_to_string("dia_venc_mensalidade"),
        str_to_string("n_maquinas"),
        str_to_string("EMP_SERIE"),
        str_to_string("emp_obs"),
    ];
    let name = opt_text_or_empty(&input.company_name);
    let values = vec![
        text_value(registered_at),
        text_value(input.company_document.as_str()),
        text_value(name.as_str()),
        text_value(name.as_str()),
        text_value("S"),
        text_value("N"),
        text_value(due_at),
        count_value(due_day),
        count_value(1),
        text_value(input.app_id.as_str()),
        text_value(input.app_name.as_str()),
    ];
    JsonValue::Object(keys, values)
}

/// The body that registers a device: the company, the device's key and
/// name, not blocked, the application's version and name.
pub fn register_device_body(input: &LicenseCheckInput) -> (r: JsonValue)
    ensures
        r matches JsonValue::Object(k, v) && k@.len() == 7 && v@.len() == 7
            && k@[0]@ == "CNPJ"@ && is_text(v@[0], input.company_document@)
            && k@[1]@ == "CHAVE"@ && is_text(v@[1], opt_or_empty(input.device_key))
            && k@[2]@ == "NOME"@ && is_text(v@[2], opt_or_empty(input.device_name))
            && k@[3]@ == "nome_compu"@ && is_text(v@[3], opt_or_empty(input.device_name))
            && k@[4]@ == "BLOQUEADO"@ && is_text(v@[4], "N"@)
            && k@[5]@ == "versaoexe"@ && is_text(v@[5], input.app_version@)
            && k@[6]@ == "observacao"@ && is_text(v@[6], input.app_name@),
{
    let keys = vec![
        str_to_string("CNPJ"),
        str_to_string("CHAVE"),
        str_to_string("NOME"),
        str_to_string("nome_compu"),
        str_to_string("BLOQUEADO"),
        str_to_string("versaoexe"),
        str_to_string("observacao"),
    ];
    let key = opt_text_or_empty(&input.device_key);
    let name = opt_text_or_empty(&input.device_name);
    let values = vec![
        text_value(input.company_document.as_str()),
        text_value(key.as_str()),
        text_value(name.as_str()),
        text_value(name.as_str()),
        text_value("N"),
        text_value(input.app_version.as_str()),
        text_value(input.app_name.as_str()),
    ];
    JsonValue::Object(keys, values)
}

/// The body that renames a device and records the application's version.
pub fn rename_device_body(device_name: &str, app_version: &str) -> (r: JsonValue)
    ensures
        r matches JsonValue::Object(k, v) && k@.len() == 3 && v@.len() == 3
            && k@[0]@ == "NOME"@ && is_text(v@[0], device_name@)
            && k@[1]@ == "nome_compu"@ && is_text(v@[1], device_name@)
            && k@[2]@ == "versaoexe"@ && is_text(v@[2], app_version@),
{
    let keys = vec![str_to_string("NOME"), str_to_string("nome_compu"), str_to_string("versaoexe")];
    let values = vec![text_value(device_name), text_value(device_name), text_value(app_version)];
    JsonValue::Object(keys, values)
}

// ---------------------------------------------------------------------------
// Dates
// ---------------------------------------------------------------------------

/// Names what `chrono::DateTime::parse_from_str` with the format
/// `%Y-%m-%d %H:%M:%S%:z` gives for a text, as seconds since the epoch.
pub uninterp spec fn offset_instant(text: Seq<char>) -> Option<i64>;

/// Reads a date and time with its offset (`%Y-%m-%d %H:%M:%S%:z`) with
/// chrono; the result is named.
#[verifier::external_body]
fn parse_offset_time(text: &str) -> (r: Option<i64>)
    ensures
        r == offset_instant(text@),
{
    chrono::DateTime::parse_from_str(text, "%Y-%m-%d %H:%M:%S%:z").ok().map(|d| d.timestamp())
}

/// Reads a date and time without offset in the given chrono format and
/// places it in the machine's time zone (where that gives one instant).
/// The result depends on the machine's time zone, so nothing is stated of
/// it.
#[verifier::external_body]
fn parse_local_time(text: &str, format: &str) -> (r: Option<i64>) {
    let naive = chrono::NaiveDateTime::parse_from_str(text, format).ok()?;
    chrono::TimeZone::from_local_datetime(&chrono::Local, &naive).single().map(|d| d.timestamp())
}

/// Writes an instant in the machine's local time (`%Y-%m-%d %H:%M:%S`)
/// with chrono.  The writing depends on the machine's time zone, so
/// nothing is stated of it.
#[verifier::external_body]
fn local_text_of(unix_seconds: i64) -> (r: String) {
    match chrono::DateTime::from_timestamp(unix_seconds, 0) {
        Some(d) => d.with_timezone(&chrono::Local).format("%Y-%m-%d %H:%M:%S").to_string(),
        None => String::new(),
    }
}

/// What holds of the instant a date text is read as: none for a value that
/// is not a string; for RFC 3339 its instant; else for a date with offset
/// its instant; a text in neither form is tried as local time.
pub open spec fn datetime_read(r: Option<Moment>, v: Option<JsonValue>) -> bool {
    match text_of(v) {
        None => r is None,
        Some(t) => match rfc3339_instant(t) {
            Ok(i) => r matches Some(m) && m.unix_seconds == i.0 && m.nanos == i.1,
            Err(_) => match offset_instant(t) {
                Some(s) => r matches Some(m) && m.unix_seconds == s && m.nanos == 0,
                None => true,
            },
        },
    }
}

/// Reads a date and time of the service: RFC 3339, else with an offset,
/// else `%Y-%m-%d %H:%M:%S` or `%d/%m/%Y %H:%M:%S` in local time.
pub fn parse_datetime(value: &JsonValue) -> (r: Option<Moment>)
    ensures
        datetime_read(r, Some(*value)),
{
    let raw = match value {
        JsonValue::Text(s) => s.as_str(),
        _ => {
            return None;
        },
    };
    let instant: Option<(i64, u32)> = match parse_rfc3339(raw) {
        Ok(i) => Some(i),
        Err(_) => match parse_offset_time(raw) {
            Some(s) => Some((s, 0)),
            None => match parse_local_time(raw, "%Y-%m-%d %H:%M:%S") {
                Some(s) => Some((s, 0)),
                None => match parse_local_time(raw, "%d/%m/%Y %H:%M:%S") {
                    Some(s) => Some((s, 0)),
                    None => None,
                },
            },
        },
    };
    match instant {
        Some(i) => Some(Moment { unix_seconds: i.0, nanos: i.1, local_text: local_text_of(i.0) }),
        None => None,
    }
}

// ---------------------------------------------------------------------------
// Records
// ---------------------------------------------------------------------------

pub open spec fn opt_stringified(v: Option<JsonValue>) -> Option<Seq<char>> {
    match v {
        Some(x) => Some(stringified(x)),
        None => None,
    }
}

/// A device record with nothing read: no texts, not blocked.
pub open spec fn blank_device(d: DeviceRecord) -> bool {
    &&& d.id is None
    &&& d.device_key is None
    &&& d.device_name is None
    &&& d.blocked == false
}

/// The fields the service never sends in a device: absent or false.
pub open spec fn device_rest_blank(d: DeviceRecord) -> bool {
    &&& d.station_name is None
    &&& d.computer_name is None
    &&& d.hostname is None
    &&& d.logged_user is None
    &&& d.domain_name is None
    &&& d.os_name is None
    &&& d.os_version is None
    &&& d.os_arch is None
    &&& d.install_mode is None
    &&& d.serial_number is None
    &&& d.machine_guid is None
    &&& d.bios_serial is None
    &&& d.motherboard_serial is None
    &&& d.bound == false
    &&& d.reused_existing == false
}

/// A device read from a value: for an object, its identifier (whatever its
/// type, as text), key and name under the names the service uses, and its
/// blocked flag; for another value, a blank record.
pub open spec fn device_read(d: DeviceRecord, v: JsonValue) -> bool {
    &&& device_rest_blank(d)
    &&& match obj_fields(v) {
        None => blank_device(d),
        Some(f) => {
            &&& opt_view(d.id) == opt_stringified(first_present(f, seq!["id"@, "IDMAQ"@, "IDMAQUINA"@, "idmaquina"@]))
            &&& opt_view(d.device_key) == text_of(first_present(f, seq!["device_key"@, "key"@, "chave"@, "CHAVE"@]))
            &&& opt_view(d.device_name) == text_of(first_present(f, seq!["device_name"@, "NOME"@, "NOMEMAQ"@, "nome_compu"@]))
            &&& d.blocked == flag_of(f, "blocked"@, "BLOQUEADO"@, false)
        },
    }
}

fn text_at(keys: &Vec<String>, values: &Vec<JsonValue>, names: Vec<&str>) -> (r: Option<String>)
    ensures
        opt_view(r) == text_of(first_present((keys@, values@), str_keys(names@))),
{
    match first_present_exec(keys, values, &names) {
        Some(JsonValue::Text(s)) => Some(s.clone()),
        _ => None,
    }
}

fn device_with(id: Option<String>, device_key: Option<String>, device_name: Option<String>, blocked: bool) -> (r: DeviceRecord)
    ensures
        device_rest_blank(r),
        r.id == id,
        r.device_key == device_key,
        r.device_name == device_name,
        r.blocked == blocked,
{
    DeviceRecord {
        id,
        device_key,
        device_name,
        station_name: None,
        computer_name: None,
        hostname: None,
        logged_user: None,
        domain_name: None,
        os_name: None,
        os_version: None,
        os_arch: None,
        install_mode: None,
        serial_number: None,
        machine_guid: None,
        bios_serial: None,
        motherboard_serial: None,
        blocked,
        bound: false,
        reused_existing: false,
    }
}

/// Reads a device of the service's answer (see `device_read`).
pub fn normalize_device(value: &JsonValue) -> (r: DeviceRecord)
    ensures
        device_read(r, *value),
{
    let (keys, values) = match value {
        JsonValue::Object(k, v) => (k, v),
        _ => {
            return device_with(None, None, None, false);
        },
    };
    let ids = vec!["id", "IDMAQ", "IDMAQUINA", "idmaquina"];
    let key_names = vec!["device_key", "key", "chave", "CHAVE"];
    let name_names = vec!["device_name", "NOME", "NOMEMAQ", "nome_compu"];
    proof {
        assert(str_keys(ids@) =~= seq!["id"@, "IDMAQ"@, "IDMAQUINA"@, "idmaquina"@]);
        assert(str_keys(key_names@) =~= seq!["device_key"@, "key"@, "chave"@, "CHAVE"@]);
        assert(str_keys(name_names@) =~= seq!["device_name"@, "NOME"@, "NOMEMAQ"@, "nome_compu"@]);
    }
    let id = match first_present_exec(keys, values, &ids) {
        Some(v) => Some(stringify_value(v)),
        None => None,
    };
    let device_key = text_at(keys, values, key_names);
    let device_name = text_at(keys, values, name_names);
    let blocked = flag_exec(keys, values, "blocked", "BLOQUEADO", false);
    device_with(id, device_key, device_name, blocked)
}

/// `v as u32`: the low 32 bits.
pub open spec fn low_u32(v: u64) -> u32 {
    (v % 0x1_0000_0000) as u32
}

pub open spec fn opt_low_u32(v: Option<u64>) -> Option<u32> {
    match v {
        Some(u) => Some(low_u32(u)),
        None => None,
    }
}

/// The devices of a license: those read from the first list present.
pub open spec fn devices_read(ds: Seq<DeviceRecord>, v: Option<JsonValue>) -> bool {
    match v {
        Some(JsonValue::Array(items)) => ds.len() == items@.len() && forall|k: int|
            0 <= k < ds.len() ==> device_read(#[trigger] ds[k], items@[k]),
        _ => ds.len() == 0,
    }
}

/// A license read from a value: for an object, its document, company name,
/// blocked and active flags (active unless told otherwise), expiry, number
/// of devices (the low 32 bits of the first that is a `u64`) and devices,
/// each under the names the service uses; for another value, an empty
/// record that is not active.
pub open spec fn license_read(l: LicenseRecord, v: JsonValue) -> bool {
    &&& l.company_email is None
    &&& l.devices_in_use is None
    &&& match obj_fields(v) {
        None => {
            &&& l.document is None
            &&& l.company_name is None
            &&& !l.blocked
            &&& !l.active
            &&& l.expires_at is None
            &&& l.max_devices is None
            &&& l.devices@.len() == 0
        },
        Some(f) => {
            &&& opt_view(l.document) == text_of(first_present(f, seq!["document"@, "CNPJ"@]))
            &&& opt_view(l.company_name) == text_of(first_present(f, seq!["company_name"@, "RAZAO"@, "RAZAOSOCIAL"@]))
            &&& l.blocked == flag_of(f, "blocked"@, "BLOQUEADO"@, false)
            &&& l.active == flag_of(f, "active"@, "ATIVO"@, true)
            &&& datetime_read(l.expires_at, first_present(f, seq!["expires_at"@, "DATA_VAL_LIC"@]))
            &&& l.max_devices == opt_low_u32(first_u64(f, seq!["max_devices"@, "QTD_MAQ"@, "n_maquinas"@, "N_MAQUINAS"@]))
            &&& devices_read(
                l.devices@,
                first_present(f, seq!["devices"@, "computers"@, "COMPUTADORES"@, "maquinas"@, "MAQUINAS"@]),
            )
        },
    }
}

fn normalize_devices(v: Option<&JsonValue>) -> (r: Vec<DeviceRecord>)
    ensures
        devices_read(r@, match v {
            Some(x) => Some(*x),
            None => None,
        }),
{
    let items = match v {
        Some(JsonValue::Array(items)) => items,
        _ => {
            return Vec::new();
        },
    };
    let mut out: Vec<DeviceRecord> = Vec::new();
    for i in 0..items.len()
        invariant
            out@.len() == i,
            forall|k: int| 0 <= k < i ==> device_read(#[trigger] out@[k], items@[k]),
    {
        out.push(normalize_device(&items[i]));
    }
    out
}

/// Reads a license of the service's answer (see `license_read`).
pub fn normalize_license(value: &JsonValue) -> (r: LicenseRecord)
    ensures
        license_read(r, *value),
{
    let (keys, values) = match value {
        JsonValue::Object(k, v) => (k, v),
        _ => {
            return LicenseRecord::empty();
        },
    };
    let list_names = vec!["devices", "computers", "COMPUTADORES", "maquinas", "MAQUINAS"];
    let doc_names = vec!["document", "CNPJ"];
    let company_names = vec!["company_name", "RAZAO", "RAZAOSOCIAL"];
    let expiry_names = vec!["expires_at", "DATA_VAL_LIC"];
    let max_names = vec!["max_devices", "QTD_MAQ", "n_maquinas", "N_MAQUINAS"];
    proof {
        assert(str_keys(list_names@) =~= seq!["devices"@, "computers"@, "COMPUTADORES"@, "maquinas"@, "MAQUINAS"@]);
        assert(str_keys(doc_names@) =~= seq!["document"@, "CNPJ"@]);
        assert(str_keys(company_names@) =~= seq!["company_name"@, "RAZAO"@, "RAZAOSOCIAL"@]);
        assert(str_keys(expiry_names@) =~= seq!["expires_at"@, "DATA_VAL_LIC"@]);
        assert(str_keys(max_names@) =~= seq!["max_devices"@, "QTD_MAQ"@, "n_maquinas"@, "N_MAQUINAS"@]);
    }
    let devices = normalize_devices(first_present_exec(keys, values, &list_names));
    let expires_at = match first_present_exec(keys, values, &expiry_names) {
        Some(v) => parse_datetime(v),
        None => None,
    };
    let max_devices = match first_u64_exec(keys, values, &max_names) {
        Some(u) => Some((u % 0x1_0000_0000) as u32),
        None => None,
    };
    LicenseRecord {
        document: text_at(keys, values, doc_names),
        company_name: text_at(keys, values, company_names),
        company_email: None,
        blocked: flag_exec(keys, values, "blocked", "BLOQUEADO", false),
        active: flag_exec(keys, values, "active", "ATIVO", true),
        expires_at,
        max_devices,
        devices_in_use: None,
        devices,
    }
}

/// `v as i32`: the low 32 bits, signed.
pub open spec fn low_i32(v: i64) -> i32 {
    v as i32
}

/// The answer of the status endpoint: an object that speaks of `license` or
/// `status` gives its `status` (an `i64` read as its low 32 bits, else 0),
/// its `message`, and the license under `license` (else the object itself);
/// another object gives `STATUS`, `MESSAGE` and itself as the license;
/// anything else is refused.
pub open spec fn response_read(r: Result<LicenseApiResponse, LicenseError>, v: JsonValue) -> bool {
    match obj_fields(v) {
        None => r matches Err(LicenseError::Serde(m)) && m@ == "resposta inválida da API de licença"@,
        Some(f) => r matches Ok(a) && if field_of(f, "license"@) is Some || field_of(f, "status"@) is Some {
            &&& a.status == match i64_of(field_of(f, "status"@)) {
                Some(i) => low_i32(i),
                None => 0i32,
            }
            &&& opt_view(a.message) == text_of(field_of(f, "message"@))
            &&& license_read(a.license, match field_of(f, "license"@) {
                Some(l) => l,
                None => v,
            })
        } else {
            &&& a.status == match i64_of(field_of(f, "STATUS"@)) {
                Some(i) => low_i32(i),
                None => 0i32,
            }
            &&& opt_view(a.message) == text_of(field_of(f, "MESSAGE"@))
            &&& license_read(a.license, v)
        },
    }
}

fn status_at(keys: &Vec<String>, values: &Vec<JsonValue>, name: &str) -> (r: i32)
    ensures
        r == match i64_of(field_of((keys@, values@), name@)) {
            Some(i) => low_i32(i),
            None => 0i32,
        },
{
    match json_get(keys, values, name) {
        Some(JsonValue::Number(n)) => match n.as_i64 {
            Some(i) => i as i32,
            None => 0,
        },
        _ => 0,
    }
}

fn message_at(keys: &Vec<String>, values: &Vec<JsonValue>, name: &str) -> (r: Option<String>)
    ensures
        opt_view(r) == text_of(field_of((keys@, values@), name@)),
{
    match json_get(keys, values, name) {
        Some(JsonValue::Text(s)) => Some(s.clone()),
        _ => None,
    }
}

/// Reads the answer of the status endpoint (see `response_read`).
pub fn normalize_response(value: &JsonValue) -> (r: Result<LicenseApiResponse, LicenseError>)
    ensures
        response_read(r, *value),
{
    let (keys, values) = match value {
        JsonValue::Object(k, v) => (k, v),
        _ => {
            return Err(LicenseError::Serde("resposta inválida da API de licença".to_string()));
        },
    };
    let license_value = json_get(keys, values, "license");
    let has_status = json_get(keys, values, "status").is_some();
    if license_value.is_some() || has_status {
        let status = status_at(keys, values, "status");
        let message = message_at(keys, values, "message");
        let license = match license_value {
            Some(l) => normalize_license(l),
            None => normalize_license(value),
        };
        return Ok(LicenseApiResponse { status, message, license });
    }
    let status = status_at(keys, values, "STATUS");
    let message = message_at(keys, values, "MESSAGE");
    Ok(LicenseApiResponse { status, message, license: normalize_license(value) })
}

} // verus!
