use integra_desktop::license_models::{DeviceCollectedInfo, LicenseCheckInput};
use integra_desktop::license_service::{enrich_input, whole_days_between};
use integra_desktop::license_json::{register_company_body, register_device_body, rename_device_body};
use integra_desktop::license_domain::ValidateLocalLicenseRequest;
use integra_desktop::license_domain::{LicenseSettings, LocalLicenseDocument};
use integra_desktop::licensing::normalize_license_settings;
use integra_desktop::license_domain::parse_startup_license_args;
use integra_desktop::local_license::{
    license_content_source, local_license_request_from_startup, sign_document, validate_local_license,
    validate_local_license_from_startup, LicenseContent, LoadedLocalLicense, LocalLicenseEnv,
};
use integra_desktop::license_json::{
    api_url, bearer_token, status_url, update_device_url,
    normalize_device, normalize_license, normalize_response, parse_bool, parse_datetime, stringify_value, JsonNumber,
    JsonValue,
};
use integra_desktop::license_models::{LicenseApiResponse, LicenseError};
use integra_desktop::license_service::{marked_value, pretty_name};

fn answered(r: Result<LicenseApiResponse, LicenseError>) -> LicenseApiResponse {
    match r {
        Ok(a) => a,
        Err(_) => panic!("expected an answer"),
    }
}

fn text(s: &str) -> JsonValue {
    JsonValue::Text(s.to_string())
}

fn num(i: i64) -> JsonValue {
    JsonValue::Number(JsonNumber {
        as_i64: Some(i),
        as_u64: if i >= 0 { Some(i as u64) } else { None },
        text: i.to_string(),
    })
}

fn object(fields: Vec<(&str, JsonValue)>) -> JsonValue {
    let mut keys = Vec::new();
    let mut values = Vec::new();
    for (k, v) in fields {
        keys.push(k.to_string());
        values.push(v);
    }
    JsonValue::Object(keys, values)
}

#[test]
fn flags_read_booleans_numbers_and_words() {
    assert!(parse_bool(&JsonValue::Bool(true)));
    assert!(!parse_bool(&JsonValue::Bool(false)));
    assert!(parse_bool(&num(2)));
    assert!(!parse_bool(&num(0)));
    assert!(parse_bool(&text(" sim ")));
    assert!(parse_bool(&text("s")));
    assert!(parse_bool(&text("Yes")));
    assert!(!parse_bool(&text("N")));
    assert!(!parse_bool(&JsonValue::Null));
    let big = JsonValue::Number(JsonNumber { as_i64: None, as_u64: Some(u64::MAX), text: u64::MAX.to_string() });
    assert!(!parse_bool(&big));
}

#[test]
fn values_are_written_as_text() {
    assert_eq!(stringify_value(&text("abc")), "abc");
    assert_eq!(stringify_value(&num(42)), "42");
    assert_eq!(stringify_value(&JsonValue::Bool(true)), "true");
    assert_eq!(stringify_value(&JsonValue::Bool(false)), "false");
    assert_eq!(stringify_value(&JsonValue::Null), "");
    assert_eq!(stringify_value(&JsonValue::Array(vec![])), "");
}

#[test]
fn devices_use_the_first_name_present() {
    let d = normalize_device(&object(vec![
        ("IDMAQUINA", num(17)),
        ("chave", text("K-1")),
        ("CHAVE", text("K-2")),
        ("NOMEMAQ", text("Caixa")),
        ("BLOQUEADO", text("S")),
    ]));
    assert_eq!(d.id.as_deref(), Some("17"));
    assert_eq!(d.device_key.as_deref(), Some("K-1"));
    assert_eq!(d.device_name.as_deref(), Some("Caixa"));
    assert!(d.blocked);
    assert!(d.station_name.is_none());
    let blank = normalize_device(&text("x"));
    assert!(blank.id.is_none() && blank.device_key.is_none() && !blank.blocked);
}

#[test]
fn a_present_key_of_the_wrong_type_hides_the_later_ones() {
    let d = normalize_device(&object(vec![("device_key", num(5)), ("CHAVE", text("K"))]));
    assert_eq!(d.device_key, None);
}

#[test]
fn licenses_read_their_fields_and_devices() {
    let value = object(vec![
        ("CNPJ", text("12345678000190")),
        ("RAZAOSOCIAL", text("Empresa")),
        ("ATIVO", text("N")),
        ("QTD_MAQ", text("3")),
        ("n_maquinas", num(4_294_967_298)),
        ("expires_at", text("2030-01-02T03:04:05Z")),
        ("maquinas", JsonValue::Array(vec![object(vec![("id", text("a"))]), text("x")])),
    ]);
    let l = normalize_license(&value);
    assert_eq!(l.document.as_deref(), Some("12345678000190"));
    assert_eq!(l.company_name.as_deref(), Some("Empresa"));
    assert!(!l.active);
    assert!(!l.blocked);
    // QTD_MAQ is not a number, so n_maquinas is taken, cut to 32 bits
    assert_eq!(l.max_devices, Some(2));
    assert_eq!(l.expires_at.as_ref().map(|m| m.unix_seconds), Some(1_893_553_445));
    assert_eq!(l.devices.len(), 2);
    assert_eq!(l.devices[0].id.as_deref(), Some("a"));
    assert!(l.devices[1].id.is_none());
}

#[test]
fn a_license_object_is_active_unless_told_otherwise() {
    let l = normalize_license(&object(vec![]));
    assert!(l.active);
    assert!(l.devices.is_empty());
    let not_object = normalize_license(&JsonValue::Null);
    assert!(!not_object.active);
}

#[test]
fn dates_read_with_offsets() {
    let m = parse_datetime(&text("2024-05-06 07:08:09+02:00")).expect("offset form");
    assert_eq!(m.unix_seconds, 1_714_972_089);
    assert!(parse_datetime(&num(5)).is_none());
    assert!(parse_datetime(&text("amanhã")).is_none());
}

#[test]
fn responses_with_license_or_status() {
    let value = object(vec![
        ("status", num(1)),
        ("message", text("ok")),
        ("license", object(vec![("document", text("1"))])),
    ]);
    let r = answered(normalize_response(&value));
    assert_eq!(r.status, 1);
    assert_eq!(r.message.as_deref(), Some("ok"));
    assert_eq!(r.license.document.as_deref(), Some("1"));

    let value = object(vec![("status", num(4_294_967_297))]);
    let r = answered(normalize_response(&value));
    assert_eq!(r.status, 1);
    assert!(r.message.is_none());
}

#[test]
fn responses_in_upper_case_read_the_whole_object() {
    let value = object(vec![("STATUS", num(2)), ("MESSAGE", text("m")), ("CNPJ", text("9"))]);
    let r = answered(normalize_response(&value));
    assert_eq!(r.status, 2);
    assert_eq!(r.message.as_deref(), Some("m"));
    assert_eq!(r.license.document.as_deref(), Some("9"));
}

#[test]
fn responses_that_are_not_objects_are_refused() {
    match normalize_response(&JsonValue::Array(vec![])) {
        Err(LicenseError::Serde(m)) => assert_eq!(m, "resposta inválida da API de licença"),
        _ => panic!("expected a refusal"),
    }
}

fn config_with(base: &str, token: Option<&str>) -> integra_desktop::license_models::LicenseConfig {
    let mut c = integra_desktop::license_models::LicenseConfig::default();
    c.base_url = base.to_string();
    c.api_token = token.map(|t| t.to_string());
    c
}

#[test]
fn request_addresses_join_base_and_endpoint() {
    let mut c = config_with("https://api.example/v1//", Some("  "));
    c.status_endpoint = "/cliente/{document}".into();
    c.update_device_endpoint = "maquinas/IDMAQUINA/{id}".into();
    assert_eq!(api_url(&c, "//x"), "https://api.example/v1/x");
    assert_eq!(status_url(&c, "123").ok(), Some("https://api.example/v1/cliente/123".to_string()));
    assert_eq!(update_device_url(&c, "9").ok(), Some("https://api.example/v1/maquinas/IDMAQUINA/9".to_string()));
    assert_eq!(bearer_token(&c), None);
    let c = config_with(" ", Some("tok"));
    assert_eq!(bearer_token(&c), Some("tok".to_string()));
    match status_url(&c, "1") {
        Err(LicenseError::Config(m)) => assert_eq!(m, "base_url da licença não informada"),
        _ => panic!("expected a refusal"),
    }
}

#[test]
fn command_outputs_give_their_values() {
    let ioreg = "+-o Root\n    \"IOPlatformUUID\" = \"ABC-123\"\n    \"other\" = 1";
    assert_eq!(marked_value(ioreg, "IOPlatformUUID", '=', true), "ABC-123");
    let profiler = "Hardware:\n      Serial Number (system): C02X\n      Hardware UUID: 1111-2222";
    assert_eq!(marked_value(profiler, "Serial Number", ':', false), "C02X");
    assert_eq!(marked_value(profiler, "Hardware UUID", ':', false), "1111-2222");
    assert_eq!(marked_value(profiler, "Nada", ':', false), "");
    let release = "NAME=\"Debian\"\nPRETTY_NAME=\"Debian GNU/Linux 12\"\nID=debian";
    assert_eq!(pretty_name(release), "Debian GNU/Linux 12");
    assert_eq!(pretty_name("ID=x"), "");
}

#[test]
fn license_content_comes_inline_or_from_the_file() {
    let mut req = ValidateLocalLicenseRequest::default();
    req.content_b64 = Some("e30=".to_string());
    req.file_path = Some("x.json".to_string());
    match license_content_source(&req) {
        Ok(LicenseContent::Inline { text, file_path }) => {
            assert_eq!(text, "{}");
            assert_eq!(file_path.as_deref(), Some("x.json"));
        },
        _ => panic!("inline content expected"),
    }
    req.content_b64 = Some("  ".to_string());
    match license_content_source(&req) {
        Ok(LicenseContent::File { path }) => assert_eq!(path, "x.json"),
        _ => panic!("file expected"),
    }
    req.file_path = None;
    assert!(matches!(license_content_source(&req), Err(e) if e == "arquivo de licença local não informado"));
    req.content_b64 = Some("%%%".to_string());
    assert!(license_content_source(&req).is_err());
    req.content_b64 = Some("/w==".to_string());
    assert!(license_content_source(&req).is_err());
}

fn bare_input() -> LicenseCheckInput {
    LicenseCheckInput {
        company_document: "123".into(),
        company_name: Some("Acme".into()),
        company_email: None,
        company_legal_name: None,
        app_id: "app".into(),
        app_name: "App".into(),
        app_version: "1.0".into(),
        app_slug: Some("slug".into()),
        device_key: None,
        device_name: None,
        station_name: Some("".into()),
        hostname: Some("h1".into()),
        computer_name: None,
        serial_number: None,
        machine_guid: None,
        bios_serial: None,
        motherboard_serial: None,
        logged_user: None,
        os_name: None,
        os_version: None,
        os_arch: None,
        domain_name: None,
        mac_addresses: vec![],
        install_mode: None,
        registration_file_content_b64: None,
        registration_file_path: None,
        registration_file_verified: None,
        allow_company_auto_create: Some(true),
        allow_device_auto_create: None,
        allow_device_auto_update: None,
        requested_licenses: Some(2),
        device_identifier: None,
        validation_mode: None,
        interface_mode: None,
        local_license_mode: None,
        metadata: vec![("k".into(), "v".into())],
        login_context: false,
    }
}

fn machine() -> DeviceCollectedInfo {
    DeviceCollectedInfo {
        station_name: "EST".into(),
        hostname: "host".into(),
        computer_name: "PC".into(),
        serial_number: " ".into(),
        machine_guid: "guid".into(),
        bios_serial: "".into(),
        motherboard_serial: "mb".into(),
        logged_user: "ana".into(),
        os_name: "linux".into(),
        os_version: "6".into(),
        os_arch: "x86_64".into(),
        domain_name: "".into(),
        mac_addresses: vec!["aa:bb".into()],
        install_mode: "portable".into(),
    }
}

fn key_fields(i: &LicenseCheckInput) -> Vec<Option<String>> {
    vec![
        i.hostname.clone(), i.computer_name.clone(), i.station_name.clone(), i.device_name.clone(),
        i.serial_number.clone(), i.machine_guid.clone(), i.bios_serial.clone(), i.motherboard_serial.clone(),
        i.logged_user.clone(), i.os_name.clone(), i.os_version.clone(), i.os_arch.clone(),
        i.domain_name.clone(), i.install_mode.clone(), i.device_key.clone(), i.company_name.clone(),
    ]
}

#[test]
fn enriching_twice_changes_nothing() {
    let info = machine();
    let mut input = bare_input();
    enrich_input(&mut input, &info);
    assert_eq!(input.hostname.as_deref(), Some("h1"));
    assert_eq!(input.station_name.as_deref(), Some("EST"));
    assert_eq!(input.device_name.as_deref(), Some("EST"));
    assert_eq!(input.serial_number, None);
    assert_eq!(input.machine_guid.as_deref(), Some("guid"));
    assert_eq!(input.mac_addresses, vec!["aa:bb".to_string()]);
    assert_eq!(input.company_name.as_deref(), Some("Acme"));
    assert_eq!(input.app_version, "1.0");
    assert_eq!(input.requested_licenses, Some(2));
    let key = input.device_key.clone().expect("a key");
    assert_eq!(key.len(), 64);
    assert!(key.chars().all(|c| c.is_ascii_digit() || ('a'..='f').contains(&c)));
    let once = key_fields(&input);
    enrich_input(&mut input, &info);
    assert_eq!(key_fields(&input), once);
    assert_eq!(input.mac_addresses, vec!["aa:bb".to_string()]);
    assert_eq!(input.metadata, vec![("k".to_string(), "v".to_string())]);
}

#[test]
fn instants_keep_their_nanoseconds() {
    let m = parse_datetime(&text("2026-01-01T00:00:00.5Z")).expect("rfc 3339");
    assert_eq!(m.unix_seconds, 1_767_225_600);
    assert_eq!(m.nanos, 500_000_000);
    let o = parse_datetime(&text("2024-05-06 07:08:09+02:00")).expect("offset form");
    assert_eq!(o.nanos, 0);
    assert_eq!(whole_days_between((0, 5), (86_400, 4)), 0);
    assert_eq!(whole_days_between((0, 5), (86_400, 5)), 1);
    assert_eq!(whole_days_between((86_400, 0), (0, 1)), 0);
    assert_eq!(whole_days_between((172_800, 0), (0, 0)), -2);
}

fn texts_of(v: &JsonValue) -> Vec<(String, String)> {
    match v {
        JsonValue::Object(keys, values) => keys
            .iter()
            .zip(values.iter())
            .map(|(k, v)| {
                let t = match v {
                    JsonValue::Text(s) => s.clone(),
                    JsonValue::Number(n) => format!("#{}", n.text),
                    _ => "?".to_string(),
                };
                (k.clone(), t)
            })
            .collect(),
        _ => vec![],
    }
}

#[test]
fn request_bodies_carry_the_input() {
    let input = bare_input();
    let c = register_company_body(&input, "2026-03-01 10:00:00", "2026-03-31 10:00:00", 1);
    let pairs = texts_of(&c);
    assert_eq!(pairs.len(), 11);
    assert_eq!(pairs[0], ("DATACAD".to_string(), "2026-03-01 10:00:00".to_string()));
    assert_eq!(pairs[2], ("RAZAOSOCIAL".to_string(), "Acme".to_string()));
    assert_eq!(pairs[6], ("DATA_VAL_LIC".to_string(), "2026-03-31 10:00:00".to_string()));
    assert_eq!(pairs[7], ("dia_venc_mensalidade".to_string(), "#1".to_string()));
    assert_eq!(pairs[8], ("n_maquinas".to_string(), "#1".to_string()));
    assert_eq!(pairs[10], ("emp_obs".to_string(), "App".to_string()));
    let d = texts_of(&register_device_body(&input));
    assert_eq!(d[1], ("CHAVE".to_string(), "".to_string()));
    assert_eq!(d[5], ("versaoexe".to_string(), "1.0".to_string()));
    let r = texts_of(&rename_device_body("PC", "2.0"));
    assert_eq!(r, vec![
        ("NOME".to_string(), "PC".to_string()),
        ("nome_compu".to_string(), "PC".to_string()),
        ("versaoexe".to_string(), "2.0".to_string()),
    ]);
}

#[test]
fn a_signed_license_validates() {
    let unsigned = br#"{"company":"x"}"#.to_vec();
    let mut payload = LocalLicenseDocument::default();
    payload.company_document = "12345678000190".into();
    payload.expires_at = Some("2999-01-01T00:00:00Z".into());
    payload.signature = sign_document(&unsigned, "segredo");
    let loaded = LoadedLocalLicense { payload, file_path: None, unsigned_json: unsigned.clone() };
    let mut req = ValidateLocalLicenseRequest::default();
    req.developer_secret = Some(" segredo ".into());
    let env = LocalLicenseEnv { dev_token: None, dev_secret: None };
    let v = validate_local_license(&req, &env, Ok(loaded), (1_700_000_000, 0)).expect("validated");
    assert!(v.valid);
    assert_eq!(v.reason_code, "LOCAL_LICENSE_VALID");
    assert_eq!(v.payload.map(|p| p.company_document), Some("12345678000190".to_string()));
    let mut bad = LocalLicenseDocument::default();
    bad.signature = "x".into();
    let loaded = LoadedLocalLicense { payload: bad, file_path: None, unsigned_json: unsigned };
    let v = validate_local_license(&req, &env, Ok(loaded), (1_700_000_000, 0)).expect("answered");
    assert!(!v.valid);
    assert_eq!(v.reason_code, "LOCAL_LICENSE_SIGNATURE_INVALID");
}

#[test]
fn signatures_are_base64_of_the_digest() {
    let sig = sign_document(b"abc", "k");
    assert_eq!(sig.len(), 44);
    assert!(sig.ends_with('='));
    assert!(!sig[..43].contains('='));
}

fn settings_fields(s: &LicenseSettings) -> Vec<String> {
    vec![
        s.service_url.clone(), s.app_instance.clone(), s.machine_key.clone(), s.company_document.clone(),
        s.company_name.clone(), s.company_email.clone(), s.station_name.clone(),
        s.auto_register_validation_mode.clone(), s.auto_register_interface_mode.clone(),
        s.auto_register_device_identifier.clone(),
    ]
}

fn settings_copy(s: &LicenseSettings) -> LicenseSettings {
    let mut c = LicenseSettings::default();
    c.service_url = s.service_url.clone();
    c.company_name = s.company_name.clone();
    c.company_document = s.company_document.clone();
    c.company_email = s.company_email.clone();
    c.station_name = s.station_name.clone();
    c.machine_key = s.machine_key.clone();
    c.auto_register_machine = s.auto_register_machine;
    c.app_instance = s.app_instance.clone();
    c.auto_register_requested_licenses = s.auto_register_requested_licenses;
    c.auto_register_validation_mode = s.auto_register_validation_mode.clone();
    c.auto_register_interface_mode = s.auto_register_interface_mode.clone();
    c.auto_register_device_identifier = s.auto_register_device_identifier.clone();
    c.licensing_disabled = s.licensing_disabled;
    c
}

#[test]
fn normalizing_settings_twice_changes_nothing() {
    let info = machine();
    for url in ["", "https://x.test/", "///", "https://x.test/api/v1/"] {
        let mut s = LicenseSettings::default();
        s.service_url = url.to_string();
        s.company_document = "12.345.678/0001-90".into();
        s.company_name = "  Acme ".into();
        s.auto_register_interface_mode = " silent ".into();
        let once = normalize_license_settings(s, &info, "1.0", "EST");
        assert!(once.service_url.ends_with("/api/v1"));
        assert_eq!(once.company_document, "12345678000190");
        assert_eq!(once.app_instance, "integra-desktop");
        assert_eq!(once.machine_key.len(), 64);
        assert_eq!(once.auto_register_validation_mode, "standard");
        assert_eq!(once.auto_register_interface_mode, "silent");
        let twice = normalize_license_settings(settings_copy(&once), &info, "1.0", "EST");
        assert_eq!(settings_fields(&twice), settings_fields(&once));
    }
}

fn signed_loaded(secret: &str) -> LoadedLocalLicense {
    let unsigned = br#"{"company":"y"}"#.to_vec();
    let mut payload = LocalLicenseDocument::default();
    payload.company_document = "11222333000181".into();
    payload.signature = sign_document(&unsigned, secret);
    LoadedLocalLicense { payload, file_path: Some("l.json".into()), unsigned_json: unsigned }
}

#[test]
fn the_startup_check_is_the_validation_of_its_request() {
    let env = LocalLicenseEnv { dev_token: None, dev_secret: None };
    let mut startup = parse_startup_license_args();
    assert!(validate_local_license_from_startup(&startup, None, None, &None, &env, Ok(signed_loaded("s")), (0, 0))
        .expect("no check")
        .is_none());
    startup.public.local_license_enabled = true;
    startup.developer_secret = Some("s".into());
    let default_path = Some("d.json".to_string());
    let from_startup =
        validate_local_license_from_startup(&startup, Some("11.222.333/0001-81"), None, &default_path, &env, Ok(signed_loaded("s")), (0, 0))
            .expect("validated")
            .expect("checked");
    let request = local_license_request_from_startup(&startup, Some("11.222.333/0001-81"), None, &default_path).expect("asked");
    assert_eq!(request.file_path.as_deref(), Some("d.json"));
    let direct = validate_local_license(&request, &env, Ok(signed_loaded("s")), (0, 0)).expect("validated");
    assert_eq!(from_startup.valid, direct.valid);
    assert_eq!(from_startup.reason_code, direct.reason_code);
    assert_eq!(from_startup.message, direct.message);
    assert!(direct.valid);
    startup.developer_secret = None;
    let e1 = validate_local_license_from_startup(&startup, None, None, &default_path, &env, Ok(signed_loaded("s")), (0, 0));
    let request = local_license_request_from_startup(&startup, None, None, &default_path).expect("asked");
    let e2 = validate_local_license(&request, &env, Ok(signed_loaded("s")), (0, 0));
    assert_eq!(e1.err(), e2.err());
}
