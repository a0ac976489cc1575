//! The license data the application keeps and shows: settings, the
//! license and machine as the screens present them, the runtime status,
//! the command-line options, and local license files.
use vstd::prelude::*;

verus! {
/// The licensing settings of the application.
pub struct LicenseSettings {
    pub service_url: String,
    pub company_name: String,
    pub company_document: String,
    pub company_email: String,
    pub station_name: String,
    pub machine_key: String,
    pub auto_register_machine: bool,
    pub app_instance: String,
    pub auto_register_requested_licenses: Option<u32>,
    pub auto_register_validation_mode: String,
    pub auto_register_interface_mode: String,
    pub auto_register_device_identifier: String,
    pub licensing_disabled: bool,
}

impl Default for LicenseSettings {
    /// Every text empty, every number zero, every flag off.
    fn default() -> (r: Self)
        ensures
            r.service_url@ == Seq::<char>::empty(),
            r.company_name@ == Seq::<char>::empty(),
            r.company_document@ == Seq::<char>::empty(),
            r.company_email@ == Seq::<char>::empty(),
            r.station_name@ == Seq::<char>::empty(),
            r.machine_key@ == Seq::<char>::empty(),
            !r.auto_register_machine,
            r.app_instance@ == Seq::<char>::empty(),
            r.auto_register_requested_licenses is None,
            r.auto_register_validation_mode@ == Seq::<char>::empty(),
            r.auto_register_interface_mode@ == Seq::<char>::empty(),
            r.auto_register_device_identifier@ == Seq::<char>::empty(),
            !r.licensing_disabled,
    {
        LicenseSettings {
            service_url: String::new(),
            company_name: String::new(),
            company_document: String::new(),
            company_email: String::new(),
            station_name: String::new(),
            machine_key: String::new(),
            auto_register_machine: false,
            app_instance: String::new(),
            auto_register_requested_licenses: None,
            auto_register_validation_mode: String::new(),
            auto_register_interface_mode: String::new(),
            auto_register_device_identifier: String::new(),
            licensing_disabled: false,
        }
    }
}

/// A license as the legacy license screens show it.
pub struct LocalLicense {
    pub id: i64,
    pub empresa: String,
    pub cnpj: String,
    pub fantasia: String,
    pub serial: String,
    pub licencas: String,
    pub ativo: bool,
    pub endereco: String,
    pub bairro: String,
    pub cidade: String,
    pub uf: String,
    pub cep: String,
    pub numero: String,
    pub email: String,
    pub complemento: String,
    pub dias: i64,
    pub competencia: String,
    pub bloqueio: bool,
    pub retaguarda: bool,
    pub pdv: bool,
    pub cte: bool,
    pub mdfe: bool,
    pub nfe: bool,
    pub frente: bool,
    pub sat: bool,
    pub app: bool,
    pub boletos: bool,
    pub mfe: bool,
    pub commerce: bool,
    pub serial_key: String,
    pub terminal_ativo: bool,
    pub usadas: i64,
}

impl Default for LocalLicense {
    /// Every text empty, every number zero, every flag off.
    fn default() -> (r: Self)
        ensures
            r.id == 0,
            r.empresa@ == Seq::<char>::empty(),
            r.cnpj@ == Seq::<char>::empty(),
            r.fantasia@ == Seq::<char>::empty(),
            r.serial@ == Seq::<char>::empty(),
            r.licencas@ == Seq::<char>::empty(),
            !r.ativo,
            r.endereco@ == Seq::<char>::empty(),
            r.bairro@ == Seq::<char>::empty(),
            r.cidade@ == Seq::<char>::empty(),
            r.uf@ == Seq::<char>::empty(),
            r.cep@ == Seq::<char>::empty(),
            r.numero@ == Seq::<char>::empty(),
            r.email@ == Seq::<char>::empty(),
            r.complemento@ == Seq::<char>::empty(),
            r.dias == 0,
            r.competencia@ == Seq::<char>::empty(),
            !r.bloqueio,
            !r.retaguarda,
            !r.pdv,
            !r.cte,
            !r.mdfe,
            !r.nfe,
            !r.frente,
            !r.sat,
            !r.app,
            !r.boletos,
            !r.mfe,
            !r.commerce,
            r.serial_key@ == Seq::<char>::empty(),
            !r.terminal_ativo,
            r.usadas == 0,
    {
        LocalLicense {
            id: 0,
            empresa: String::new(),
            cnpj: String::new(),
            fantasia: String::new(),
            serial: String::new(),
            licencas: String::new(),
            ativo: false,
            endereco: String::new(),
            bairro: String::new(),
            cidade: String::new(),
            uf: String::new(),
            cep: String::new(),
            numero: String::new(),
            email: String::new(),
            complemento: String::new(),
            dias: 0,
            competencia: String::new(),
            bloqueio: false,
            retaguarda: false,
            pdv: false,
            cte: false,
            mdfe: false,
            nfe: false,
            frente: false,
            sat: false,
            app: false,
            boletos: false,
            mfe: false,
            commerce: false,
            serial_key: String::new(),
            terminal_ativo: false,
            usadas: 0,
        }
    }
}

/// A licensed company as the legacy license screens show it.
pub struct LicensedCompany {
    pub idcliente: i64,
    pub datacad: String,
    pub cnpj: String,
    pub emp_inscestrg: String,
    pub emp_inscmunicipal: String,
    pub emp_nomefantasia: String,
    pub razaosocial: String,
    pub emp_endereco: String,
    pub emp_numero: String,
    pub emp_bairro: String,
    pub emp_cidade: String,
    pub emp_uf: String,
    pub emp_cep: String,
    pub emp_complemento: String,
    pub telefone1: String,
    pub emp_email: String,
    pub emp_website: String,
    pub emp_responsavel: String,
    pub emp_cnae: String,
    pub emp_serie: String,
    pub idrepresentante: i64,
    pub bloqueio_admin: bool,
    pub bloqueado: bool,
    pub ativo: bool,
    pub dia_venc_mensalidade: i64,
    pub forma_pagamento: String,
    pub emp_obs: String,
    pub n_maquinas: i64,
    pub data_val_lic: String,
    pub api_whatsapp: String,
    pub token_whatsapp: String,
    pub default_msg_whatsapp: String,
}

impl Default for LicensedCompany {
    /// Every text empty, every number zero, every flag off.
    fn default() -> (r: Self)
        ensures
            r.idcliente == 0,
            r.datacad@ == Seq::<char>::empty(),
            r.cnpj@ == Seq::<char>::empty(),
            r.emp_inscestrg@ == Seq::<char>::empty(),
            r.emp_inscmunicipal@ == Seq::<char>::empty(),
            r.emp_nomefantasia@ == Seq::<char>::empty(),
            r.razaosocial@ == Seq::<char>::empty(),
            r.emp_endereco@ == Seq::<char>::empty(),
            r.emp_numero@ == Seq::<char>::empty(),
            r.emp_bairro@ == Seq::<char>::empty(),
            r.emp_cidade@ == Seq::<char>::empty(),
            r.emp_uf@ == Seq::<char>::empty(),
            r.emp_cep@ == Seq::<char>::empty(),
            r.emp_complemento@ == Seq::<char>::empty(),
            r.telefone1@ == Seq::<char>::empty(),
            r.emp_email@ == Seq::<char>::empty(),
            r.emp_website@ == Seq::<char>::empty(),
            r.emp_responsavel@ == Seq::<char>::empty(),
            r.emp_cnae@ == Seq::<char>::empty(),
            r.emp_serie@ == Seq::<char>::empty(),
            r.idrepresentante == 0,
            !r.bloqueio_admin,
            !r.bloqueado,
            !r.ativo,
            r.dia_venc_mensalidade == 0,
            r.forma_pagamento@ == Seq::<char>::empty(),
            r.emp_obs@ == Seq::<char>::empty(),
            r.n_maquinas == 0,
            r.data_val_lic@ == Seq::<char>::empty(),
            r.api_whatsapp@ == Seq::<char>::empty(),
            r.token_whatsapp@ == Seq::<char>::empty(),
            r.default_msg_whatsapp@ == Seq::<char>::empty(),
    {
        LicensedCompany {
            idcliente: 0,
            datacad: String::new(),
            cnpj: String::new(),
            emp_inscestrg: String::new(),
            emp_inscmunicipal: String::new(),
            emp_nomefantasia: String::new(),
            razaosocial: String::new(),
            emp_endereco: String::new(),
            emp_numero: String::new(),
            emp_bairro: String::new(),
            emp_cidade: String::new(),
            emp_uf: String::new(),
            emp_cep: String::new(),
            emp_complemento: String::new(),
            telefone1: String::new(),
            emp_email: String::new(),
            emp_website: String::new(),
            emp_responsavel: String::new(),
            emp_cnae: String::new(),
            emp_serie: String::new(),
            idrepresentante: 0,
            bloqueio_admin: false,
            bloqueado: false,
            ativo: false,
            dia_venc_mensalidade: 0,
            forma_pagamento: String::new(),
            emp_obs: String::new(),
            n_maquinas: 0,
            data_val_lic: String::new(),
            api_whatsapp: String::new(),
            token_whatsapp: String::new(),
            default_msg_whatsapp: String::new(),
        }
    }
}

/// A licensed machine as the legacy license screens show it.
pub struct LicensedDevice {
    pub idmaquina: i64,
    pub cnpj: String,
    pub chave: String,
    pub nome: String,
    pub bloqueado: bool,
    pub modulos: String,
    pub nome_compu: String,
    pub prog_acesso: String,
    pub cod_ace_remoto: String,
    pub versao_bd: String,
    pub versaoexe: String,
    pub sistema_operacional: String,
    pub memoria_ram: String,
    pub tipo: String,
    pub observacao: String,
    pub tecnico_instalacao: String,
    pub serial_number: String,
    pub hostname: String,
    pub station_name: String,
    pub machine_guid: String,
    pub bios_serial: String,
    pub motherboard_serial: String,
    pub full_device_name: String,
}

impl Default for LicensedDevice {
    /// Every text empty, every number zero, every flag off.
    fn default() -> (r: Self)
        ensures
            r.idmaquina == 0,
            r.cnpj@ == Seq::<char>::empty(),
            r.chave@ == Seq::<char>::empty(),
            r.nome@ == Seq::<char>::empty(),
            !r.bloqueado,
            r.modulos@ == Seq::<char>::empty(),
            r.nome_compu@ == Seq::<char>::empty(),
            r.prog_acesso@ == Seq::<char>::empty(),
            r.cod_ace_remoto@ == Seq::<char>::empty(),
            r.versao_bd@ == Seq::<char>::empty(),
            r.versaoexe@ == Seq::<char>::empty(),
            r.sistema_operacional@ == Seq::<char>::empty(),
            r.memoria_ram@ == Seq::<char>::empty(),
            r.tipo@ == Seq::<char>::empty(),
            r.observacao@ == Seq::<char>::empty(),
            r.tecnico_instalacao@ == Seq::<char>::empty(),
            r.serial_number@ == Seq::<char>::empty(),
            r.hostname@ == Seq::<char>::empty(),
            r.station_name@ == Seq::<char>::empty(),
            r.machine_guid@ == Seq::<char>::empty(),
            r.bios_serial@ == Seq::<char>::empty(),
            r.motherboard_serial@ == Seq::<char>::empty(),
            r.full_device_name@ == Seq::<char>::empty(),
    {
        LicensedDevice {
            idmaquina: 0,
            cnpj: String::new(),
            chave: String::new(),
            nome: String::new(),
            bloqueado: false,
            modulos: String::new(),
            nome_compu: String::new(),
            prog_acesso: String::new(),
            cod_ace_remoto: String::new(),
            versao_bd: String::new(),
            versaoexe: String::new(),
            sistema_operacional: String::new(),
            memoria_ram: String::new(),
            tipo: String::new(),
            observacao: String::new(),
            tecnico_instalacao: String::new(),
            serial_number: String::new(),
            hostname: String::new(),
            station_name: String::new(),
            machine_guid: String::new(),
            bios_serial: String::new(),
            motherboard_serial: String::new(),
            full_device_name: String::new(),
        }
    }
}

/// What the registration screen shows about this machine.
pub struct RegistrationDeviceInfo {
    pub station_name: String,
    pub device_display_name: String,
    pub hostname: String,
    pub computer_name: String,
    pub serial_number: String,
    pub machine_guid: String,
    pub bios_serial: String,
    pub motherboard_serial: String,
    pub logged_user: String,
    pub os_name: String,
    pub os_version: String,
    pub os_arch: String,
    pub domain_name: String,
    pub install_mode: String,
    pub mac_addresses: Vec<String>,
    pub device_key: String,
    pub registration_file_found: bool,
    pub registration_file_path: Option<String>,
    pub registration_file_verified: Option<bool>,
}

/// The license state the application runs with.
pub struct LicenseRuntimeStatus {
    pub online: bool,
    pub allowed: bool,
    pub blocked: bool,
    pub machine_registered: bool,
    pub machine_blocked: bool,
    pub seats_total: u32,
    pub seats_used: u32,
    pub expiry: Option<String>,
    pub message: String,
    pub block_reason: Option<String>,
    pub technical_message: String,
    pub company_name: String,
    pub company_document: String,
    pub machine_key: String,
    pub status_code: i32,
    pub local_license: Option<LocalLicense>,
    pub licensed_company: Option<LicensedCompany>,
    pub licensed_device: Option<LicensedDevice>,
}

/// The last known license state, kept for offline use.
pub struct LicenseSnapshot {
    pub last_sync_at: String,
    pub local_license: Option<LocalLicense>,
    pub licensed_company: Option<LicensedCompany>,
    pub licensed_devices: Vec<LicensedDevice>,
    pub runtime_status: LicenseRuntimeStatus,
}

/// The application's name, version, build and id.
pub struct AppMeta {
    pub product_name: String,
    pub version: String,
    pub build_hash: String,
    pub app_id: String,
}

/// The licensing options given on the command line.
pub struct StartupLicenseContext {
    pub auto_register_enabled: bool,
    pub auto_register_company: bool,
    pub auto_register_device: bool,
    pub requested_licenses: Option<u32>,
    pub company_name: Option<String>,
    pub company_document: Option<String>,
    pub company_email: Option<String>,
    pub station_name: Option<String>,
    pub device_name: Option<String>,
    pub device_identifier: Option<String>,
    pub validation_mode: Option<String>,
    pub interface_mode: Option<String>,
    pub local_license_enabled: bool,
    pub local_license_generate: bool,
    pub local_license_file_path: Option<String>,
    pub local_license_token_present: bool,
    pub developer_secret_present: bool,
    pub licensing_disabled: bool,
    pub local_license_account: Option<String>,
    pub local_license_issuer: Option<String>,
    pub no_ui: bool,
    pub args: Vec<String>,
}

/// A startup context with every text absent, every flag off and no
/// arguments.
pub open spec fn startup_defaults(r: StartupLicenseContext) -> bool {
    &&& !r.auto_register_enabled
    &&& !r.auto_register_company
    &&& !r.auto_register_device
    &&& r.requested_licenses is None
    &&& r.company_name is None
    &&& r.company_document is None
    &&& r.company_email is None
    &&& r.station_name is None
    &&& r.device_name is None
    &&& r.device_identifier is None
    &&& r.validation_mode is None
    &&& r.interface_mode is None
    &&& !r.local_license_enabled
    &&& !r.local_license_generate
    &&& r.local_license_file_path is None
    &&& !r.local_license_token_present
    &&& !r.developer_secret_present
    &&& !r.licensing_disabled
    &&& r.local_license_account is None
    &&& r.local_license_issuer is None
    &&& !r.no_ui
    &&& r.args@.len() == 0
}

impl Default for StartupLicenseContext {
    /// Every text empty, every number zero, every flag off.
    fn default() -> (r: Self)
        ensures
            startup_defaults(r),
    {
        StartupLicenseContext {
            auto_register_enabled: false,
            auto_register_company: false,
            auto_register_device: false,
            requested_licenses: None,
            company_name: None,
            company_document: None,
            company_email: None,
            station_name: None,
            device_name: None,
            device_identifier: None,
            validation_mode: None,
            interface_mode: None,
            local_license_enabled: false,
            local_license_generate: false,
            local_license_file_path: None,
            local_license_token_present: false,
            developer_secret_present: false,
            licensing_disabled: false,
            local_license_account: None,
            local_license_issuer: None,
            no_ui: false,
            args: Vec::new(),
        }
    }
}

/// What a local license is generated from.
pub struct GenerateLocalLicenseRequest {
    pub company_name: String,
    pub company_document: String,
    pub company_email: String,
    pub station_name: String,
    pub machine_key: String,
    pub serial_number: String,
    pub requested_licenses: Option<u32>,
    pub expires_at: Option<String>,
    pub app_instance: String,
    pub developer_token: Option<String>,
    pub developer_secret: Option<String>,
    pub output_path: Option<String>,
    pub account_name: Option<String>,
    pub issuer_name: Option<String>,
}

/// A signed local license file.
pub struct LocalLicenseDocument {
    pub version: u32,
    pub issuer: String,
    pub app_instance: String,
    pub company_name: String,
    pub company_document: String,
    pub company_email: String,
    pub station_name: String,
    pub machine_key: String,
    pub serial_number: String,
    pub requested_licenses: Option<u32>,
    pub issued_at: String,
    pub expires_at: Option<String>,
    pub signature: String,
}

impl Default for LocalLicenseDocument {
    /// Every text empty, every number zero, every flag off.
    fn default() -> (r: Self)
        ensures
            r.version == 0,
            r.issuer@ == Seq::<char>::empty(),
            r.app_instance@ == Seq::<char>::empty(),
            r.company_name@ == Seq::<char>::empty(),
            r.company_document@ == Seq::<char>::empty(),
            r.company_email@ == Seq::<char>::empty(),
            r.station_name@ == Seq::<char>::empty(),
            r.machine_key@ == Seq::<char>::empty(),
            r.serial_number@ == Seq::<char>::empty(),
            r.requested_licenses is None,
            r.issued_at@ == Seq::<char>::empty(),
            r.expires_at is None,
            r.signature@ == Seq::<char>::empty(),
    {
        LocalLicenseDocument {
            version: 0,
            issuer: String::new(),
            app_instance: String::new(),
            company_name: String::new(),
            company_document: String::new(),
            company_email: String::new(),
            station_name: String::new(),
            machine_key: String::new(),
            serial_number: String::new(),
            requested_licenses: None,
            issued_at: String::new(),
            expires_at: None,
            signature: String::new(),
        }
    }
}

/// A generated local license and where it went.
pub struct GeneratedLocalLicense {
    pub file_content: String,
    pub file_path: Option<String>,
    pub signature: String,
    pub otpauth_uri: Option<String>,
    pub payload: LocalLicenseDocument,
}

/// What a local license is validated against.
pub struct ValidateLocalLicenseRequest {
    pub file_path: Option<String>,
    pub content_b64: Option<String>,
    pub company_document: Option<String>,
    pub machine_key: Option<String>,
    pub developer_token: Option<String>,
    pub developer_secret: Option<String>,
    pub enforce_machine_match: bool,
}

impl Default for ValidateLocalLicenseRequest {
    /// Every text empty, every number zero, every flag off.
    fn default() -> (r: Self)
        ensures
            r.file_path is None,
            r.content_b64 is None,
            r.company_document is None,
            r.machine_key is None,
            r.developer_token is None,
            r.developer_secret is None,
            !r.enforce_machine_match,
    {
        ValidateLocalLicenseRequest {
            file_path: None,
            content_b64: None,
            company_document: None,
            machine_key: None,
            developer_token: None,
            developer_secret: None,
            enforce_machine_match: false,
        }
    }
}

/// The outcome of a local license validation.
pub struct LocalLicenseValidationResult {
    pub valid: bool,
    pub reason_code: String,
    pub message: String,
    pub file_path: Option<String>,
    pub otpauth_uri: Option<String>,
    pub payload: Option<LocalLicenseDocument>,
}

/// The startup options and the secrets read with them.
pub struct ParsedStartupLicenseArgs {
    pub public: StartupLicenseContext,
    pub local_license_token: Option<String>,
    pub developer_secret: Option<String>,
}

/// The startup options when none were read: all off, no arguments, no
/// secrets.
pub fn parse_startup_license_args() -> (r: ParsedStartupLicenseArgs)
    ensures
        startup_defaults(r.public),
        r.local_license_token is None,
        r.developer_secret is None,
{
    ParsedStartupLicenseArgs {
        public: StartupLicenseContext::default(),
        local_license_token: None,
        developer_secret: None,
    }
}

} // verus!
