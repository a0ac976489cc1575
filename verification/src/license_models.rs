//! Data of the licensing service: what the service answers about a
//! company, its license and its devices, the decision taken on it, and the
//! configuration of the checks.
use vstd::prelude::*;

use crate::text::{append_str, chars_of, chars_of_string, copy_string, opt_string_clone, opt_view, string_of, str_to_string};

verus! {

/// A point in time: seconds since the Unix epoch and nanoseconds within
/// that second, and its writing in the machine's local time
/// (`%Y-%m-%d %H:%M:%S`).
pub struct Moment {
    pub unix_seconds: i64,
    pub nanos: u32,
    pub local_text: String,
}

pub fn copy_moment(m: &Moment) -> (r: Moment)
    ensures
        r.unix_seconds == m.unix_seconds,
        r.nanos == m.nanos,
        r.local_text@ == m.local_text@,
{
    Moment { unix_seconds: m.unix_seconds, nanos: m.nanos, local_text: copy_string(&m.local_text) }
}

pub open spec fn opt_moment_view(m: Option<Moment>) -> Option<(i64, u32, Seq<char>)> {
    match m {
        Some(x) => Some((x.unix_seconds, x.nanos, x.local_text@)),
        None => None,
    }
}

/// Whether a moment comes before an instant (seconds and nanoseconds).
pub open spec fn moment_before(m: Moment, now: (i64, u32)) -> bool {
    m.unix_seconds < now.0 || (m.unix_seconds == now.0 && m.nanos < now.1)
}

pub fn moment_is_before(m: &Moment, now: (i64, u32)) -> (r: bool)
    ensures
        r == moment_before(*m, now),
{
    m.unix_seconds < now.0 || (m.unix_seconds == now.0 && m.nanos < now.1)
}

pub fn copy_opt_moment(m: &Option<Moment>) -> (r: Option<Moment>)
    ensures
        opt_moment_view(r) == opt_moment_view(*m),
{
    match m {
        Some(x) => Some(copy_moment(x)),
        None => None,
    }
}

/// A device of a license, as the service knows it.
pub struct DeviceRecord {
    pub id: Option<String>,
    pub device_key: Option<String>,
    pub device_name: Option<String>,
    pub station_name: Option<String>,
    pub computer_name: Option<String>,
    pub hostname: Option<String>,
    pub logged_user: Option<String>,
    pub domain_name: Option<String>,
    pub os_name: Option<String>,
    pub os_version: Option<String>,
    pub os_arch: Option<String>,
    pub install_mode: Option<String>,
    pub serial_number: Option<String>,
    pub machine_guid: Option<String>,
    pub bios_serial: Option<String>,
    pub motherboard_serial: Option<String>,
    pub blocked: bool,
    pub bound: bool,
    pub reused_existing: bool,
}

/// The texts and flags of a device record.
pub open spec fn same_device(a: DeviceRecord, b: DeviceRecord) -> bool {
    &&& opt_view(a.id) == opt_view(b.id)
    &&& opt_view(a.device_key) == opt_view(b.device_key)
    &&& opt_view(a.device_name) == opt_view(b.device_name)
    &&& opt_view(a.station_name) == opt_view(b.station_name)
    &&& opt_view(a.computer_name) == opt_view(b.computer_name)
    &&& opt_view(a.hostname) == opt_view(b.hostname)
    &&& opt_view(a.logged_user) == opt_view(b.logged_user)
    &&& opt_view(a.domain_name) == opt_view(b.domain_name)
    &&& opt_view(a.os_name) == opt_view(b.os_name)
    &&& opt_view(a.os_version) == opt_view(b.os_version)
    &&& opt_view(a.os_arch) == opt_view(b.os_arch)
    &&& opt_view(a.install_mode) == opt_view(b.install_mode)
    &&& opt_view(a.serial_number) == opt_view(b.serial_number)
    &&& opt_view(a.machine_guid) == opt_view(b.machine_guid)
    &&& opt_view(a.bios_serial) == opt_view(b.bios_serial)
    &&& opt_view(a.motherboard_serial) == opt_view(b.motherboard_serial)
    &&& a.blocked == b.blocked
    &&& a.bound == b.bound
    &&& a.reused_existing == b.reused_existing
}

pub open spec fn same_opt_device(a: Option<DeviceRecord>, b: Option<DeviceRecord>) -> bool {
    match (a, b) {
        (Some(x), Some(y)) => same_device(x, y),
        (None, None) => true,
        _ => false,
    }
}

pub fn copy_device(d: &DeviceRecord) -> (r: DeviceRecord)
    ensures
        same_device(r, *d),
{
    DeviceRecord {
        id: opt_string_clone(&d.id),
        device_key: opt_string_clone(&d.device_key),
        device_name: opt_string_clone(&d.device_name),
        station_name: opt_string_clone(&d.station_name),
        computer_name: opt_string_clone(&d.computer_name),
        hostname: opt_string_clone(&d.hostname),
        logged_user: opt_string_clone(&d.logged_user),
        domain_name: opt_string_clone(&d.domain_name),
        os_name: opt_string_clone(&d.os_name),
        os_version: opt_string_clone(&d.os_version),
        os_arch: opt_string_clone(&d.os_arch),
        install_mode: opt_string_clone(&d.install_mode),
        serial_number: opt_string_clone(&d.serial_number),
        machine_guid: opt_string_clone(&d.machine_guid),
        bios_serial: opt_string_clone(&d.bios_serial),
        motherboard_serial: opt_string_clone(&d.motherboard_serial),
        blocked: d.blocked,
        bound: d.bound,
        reused_existing: d.reused_existing,
    }
}

/// A company's license.
pub struct LicenseRecord {
    pub document: Option<String>,
    pub company_name: Option<String>,
    pub company_email: Option<String>,
    pub blocked: bool,
    pub active: bool,
    pub expires_at: Option<Moment>,
    pub max_devices: Option<u32>,
    pub devices_in_use: Option<u32>,
    pub devices: Vec<DeviceRecord>,
}

impl LicenseRecord {
    /// The record of a company the service does not know.
    pub fn empty() -> (r: LicenseRecord)
        ensures
            r.document is None,
            r.company_name is None,
            r.company_email is None,
            !r.blocked,
            !r.active,
            r.expires_at is None,
            r.max_devices is None,
            r.devices_in_use is None,
            r.devices@.len() == 0,
    {
        LicenseRecord {
            document: None,
            company_name: None,
            company_email: None,
            blocked: false,
            active: false,
            expires_at: None,
            max_devices: None,
            devices_in_use: None,
            devices: Vec::new(),
        }
    }
}

/// The company as the service registered it.
pub struct CompanyRecord {
    pub id: Option<String>,
    pub document: Option<String>,
    pub legal_name: Option<String>,
    pub email: Option<String>,
}

/// The license of one application of a company.
pub struct ApplicationLicenseRecord {
    pub application_slug: Option<String>,
    pub max_devices: Option<u32>,
    pub devices_in_use: Option<u32>,
    pub expires_at: Option<Moment>,
}

/// One step of the service's diagnosis.
pub struct Diagnostic {
    pub step: String,
    pub code: String,
    pub message: String,
}

/// What the status endpoint answers: `status` 0 for an unknown company.
pub struct LicenseApiResponse {
    pub status: i32,
    pub message: Option<String>,
    pub license: LicenseRecord,
}

/// The outcome of a license check.
pub struct LicenseDecision {
    pub allowed: bool,
    pub message: String,
    pub used_offline_cache: bool,
    pub warning: Option<String>,
    pub license: Option<LicenseRecord>,
    pub device: Option<DeviceRecord>,
    pub source: String,
    pub company: Option<CompanyRecord>,
    pub application_license: Option<ApplicationLicenseRecord>,
    pub reason_code: Option<String>,
    pub step: Option<String>,
    pub diagnostics: Vec<Diagnostic>,
}

/// What is sent to the service about the company, the application and the
/// device.
pub struct LicenseCheckInput {
    pub company_document: String,
    pub company_name: Option<String>,
    pub company_email: Option<String>,
    pub company_legal_name: Option<String>,
    pub app_id: String,
    pub app_name: String,
    pub app_version: String,
    pub app_slug: Option<String>,
    pub device_key: Option<String>,
    pub device_name: Option<String>,
    pub station_name: Option<String>,
    pub hostname: Option<String>,
    pub computer_name: Option<String>,
    pub serial_number: Option<String>,
    pub machine_guid: Option<String>,
    pub bios_serial: Option<String>,
    pub motherboard_serial: Option<String>,
    pub logged_user: Option<String>,
    pub os_name: Option<String>,
    pub os_version: Option<String>,
    pub os_arch: Option<String>,
    pub domain_name: Option<String>,
    pub mac_addresses: Vec<String>,
    pub install_mode: Option<String>,
    pub registration_file_content_b64: Option<String>,
    pub registration_file_path: Option<String>,
    pub registration_file_verified: Option<bool>,
    pub allow_company_auto_create: Option<bool>,
    pub allow_device_auto_create: Option<bool>,
    pub allow_device_auto_update: Option<bool>,
    pub requested_licenses: Option<u32>,
    pub device_identifier: Option<String>,
    pub validation_mode: Option<String>,
    pub interface_mode: Option<String>,
    pub local_license_mode: Option<String>,
    pub metadata: Vec<(String, String)>,
    pub login_context: bool,
}

/// How the checks are made.
pub struct LicenseConfig {
    pub base_url: String,
    pub api_token: Option<String>,
    pub resolve_activation_endpoint: String,
    pub status_endpoint: String,
    pub register_company_endpoint: String,
    pub register_device_endpoint: String,
    pub update_device_endpoint: String,
    pub offline_max_age_days: i64,
    pub warn_before_expiration_in_days: i64,
    pub auto_register_company_on_missing: bool,
    pub auto_register_device_on_missing: bool,
    pub auto_update_device_name: bool,
    pub block_on_company_blocked: bool,
    pub block_on_device_blocked: bool,
    pub block_on_device_missing: bool,
    pub block_on_expired: bool,
    pub cache_namespace: String,
    pub prefer_resolve_activation: bool,
    pub allow_legacy_fallback: bool,
    pub enable_registration_file_lookup: bool,
    pub registration_file_names: Vec<String>,
    pub registration_file_extra_paths: Vec<String>,
    pub registration_public_key_base64: Option<String>,
}

pub open spec fn default_status_endpoint() -> Seq<char> {
    "81b3767f-7bc5-4275-9453-a6a921010a17/86d7b2bee439957e040b72be6fea5fc2/cliente/{document}"@
}

pub open spec fn default_register_company_endpoint() -> Seq<char> {
    "81b3767f-7bc5-4275-9453-a6a921010a17/86d7b2bee439957e040b72be6fea5fc2/clientes"@
}

pub open spec fn default_register_device_endpoint() -> Seq<char> {
    "81b3767f-7bc5-4275-9453-a6a921010a17/86d7b2bee439957e040b72be6fea5fc2/maquinas"@
}

pub open spec fn default_update_device_endpoint() -> Seq<char> {
    "81b3767f-7bc5-4275-9453-a6a921010a17/86d7b2bee439957e040b72be6fea5fc2/maquinas/IDMAQUINA/{id}"@
}

impl Default for LicenseConfig {
    fn default() -> (r: Self)
        ensures
            r.base_url@ == "https://api.rest.wwsoftwares.com.br/api/v1"@,
            r.api_token is None,
            r.resolve_activation_endpoint@ == "/licensing/activation/resolve"@,
            r.status_endpoint@ == default_status_endpoint(),
            r.register_company_endpoint@ == default_register_company_endpoint(),
            r.register_device_endpoint@ == default_register_device_endpoint(),
            r.update_device_endpoint@ == default_update_device_endpoint(),
            r.offline_max_age_days == 15,
            r.warn_before_expiration_in_days == 5,
            !r.auto_register_company_on_missing,
            !r.auto_register_device_on_missing,
            r.auto_update_device_name,
            r.block_on_company_blocked,
            r.block_on_device_blocked,
            r.block_on_device_missing,
            r.block_on_expired,
            r.cache_namespace@ == "default"@,
            r.prefer_resolve_activation,
            r.allow_legacy_fallback,
            !r.enable_registration_file_lookup,
            r.registration_file_names@.len() == 0,
            r.registration_file_extra_paths@.len() == 0,
            r.registration_public_key_base64 is None,
    {
        LicenseConfig {
            base_url: str_to_string("https://api.rest.wwsoftwares.com.br/api/v1"),
            api_token: None,
            resolve_activation_endpoint: str_to_string("/licensing/activation/resolve"),
            status_endpoint: str_to_string(
                "81b3767f-7bc5-4275-9453-a6a921010a17/86d7b2bee439957e040b72be6fea5fc2/cliente/{document}",
            ),
            register_company_endpoint: str_to_string(
                "81b3767f-7bc5-4275-9453-a6a921010a17/86d7b2bee439957e040b72be6fea5fc2/clientes",
            ),
            register_device_endpoint: str_to_string(
                "81b3767f-7bc5-4275-9453-a6a921010a17/86d7b2bee439957e040b72be6fea5fc2/maquinas",
            ),
            update_device_endpoint: str_to_string(
                "81b3767f-7bc5-4275-9453-a6a921010a17/86d7b2bee439957e040b72be6fea5fc2/maquinas/IDMAQUINA/{id}",
            ),
            offline_max_age_days: 15,
            warn_before_expiration_in_days: 5,
            auto_register_company_on_missing: false,
            auto_register_device_on_missing: false,
            auto_update_device_name: true,
            block_on_company_blocked: true,
            block_on_device_blocked: true,
            block_on_device_missing: true,
            block_on_expired: true,
            cache_namespace: str_to_string("default"),
            prefer_resolve_activation: true,
            allow_legacy_fallback: true,
            enable_registration_file_lookup: false,
            registration_file_names: Vec::new(),
            registration_file_extra_paths: Vec::new(),
            registration_public_key_base64: None,
        }
    }
}

/// What went wrong in a license check.
pub enum LicenseError {
    Config(String),
    Http(String),
    Invalid(String),
    Serde(String),
    Io(String),
}

impl LicenseError {
    /// The message of the error, as shown to the user.
    pub open spec fn message_spec(&self) -> Seq<char> {
        match self {
            LicenseError::Config(m) => "configuração inválida: "@ + m@,
            LicenseError::Http(m) => "erro HTTP: "@ + m@,
            LicenseError::Invalid(m) => "licença inválida: "@ + m@,
            LicenseError::Serde(m) => "erro de serialização: "@ + m@,
            LicenseError::Io(m) => "erro de IO: "@ + m@,
        }
    }

    pub fn message(&self) -> (r: String)
        ensures
            r@ == self.message_spec(),
    {
        let (head, m) = match self {
            LicenseError::Config(m) => ("configuração inválida: ", m),
            LicenseError::Http(m) => ("erro HTTP: ", m),
            LicenseError::Invalid(m) => ("licença inválida: ", m),
            LicenseError::Serde(m) => ("erro de serialização: ", m),
            LicenseError::Io(m) => ("erro de IO: ", m),
        };
        let mut v = chars_of(head);
        crate::text::append_chars(&mut v, &chars_of_string(m));
        string_of(&v)
    }
}

/// The text a failed check hands to the interface.
pub fn map_error(err: LicenseError) -> (r: String)
    ensures
        r@ == err.message_spec(),
{
    err.message()
}

/// What the machine tells about itself.
pub struct DeviceCollectedInfo {
    pub station_name: String,
    pub hostname: String,
    pub computer_name: String,
    pub serial_number: String,
    pub machine_guid: String,
    pub bios_serial: String,
    pub motherboard_serial: String,
    pub logged_user: String,
    pub os_name: String,
    pub os_version: String,
    pub os_arch: String,
    pub domain_name: String,
    pub mac_addresses: Vec<String>,
    pub install_mode: String,
}

} // verus!
