//! Local license files: signing and checking them with the developer's
//! secret, and the `otpauth://` link that carries that secret.
use base64::Engine;
use vstd::prelude::*;

use crate::license_domain::{
    GenerateLocalLicenseRequest, GeneratedLocalLicense, LocalLicenseDocument,
    LocalLicenseValidationResult, ParsedStartupLicenseArgs, ValidateLocalLicenseRequest,
};
use crate::license_service::{sha256, sha256_digest};
use crate::text::{
    append_chars, append_str, chars_of, chars_of_string, copy_string, digits, is_blank,
    opt_string_clone, opt_view, only_digits, replace, str_eq, str_to_string, string_of, trim,
    trim_str,
};

verus! {

// ---------------------------------------------------------------------------
// Outside encodings and dates
// ---------------------------------------------------------------------------

/// The character of a six-bit value in the standard Base64 alphabet
/// (RFC 4648): `A`-`Z`, `a`-`z`, `0`-`9`, `+`, `/`.
pub open spec fn base64_char(n: int) -> char {
    if n < 26 {
        (65 + n) as char
    } else if n < 52 {
        (97 + n - 26) as char
    } else if n < 62 {
        (48 + n - 52) as char
    } else if n == 62 {
        '+'
    } else {
        '/'
    }
}

/// The standard Base64 writing (RFC 4648, with padding) of some bytes:
/// each group of three bytes as four characters of six bits each, a last
/// group of one or two bytes padded with `=`.
pub open spec fn base64_standard(data: Seq<u8>) -> Seq<char>
    decreases data.len(),
{
    if data.len() == 0 {
        seq![]
    } else {
        let b0 = data[0] as int;
        let b1 = if data.len() > 1 { data[1] as int } else { 0 };
        let b2 = if data.len() > 2 { data[2] as int } else { 0 };
        let c0 = base64_char(b0 / 4);
        let c1 = base64_char((b0 % 4) * 16 + b1 / 16);
        let c2 = if data.len() > 1 { base64_char((b1 % 16) * 4 + b2 / 64) } else { '=' };
        let c3 = if data.len() > 2 { base64_char(b2 % 64) } else { '=' };
        seq![c0, c1, c2, c3] + if data.len() > 3 { base64_standard(data.skip(3)) } else { seq![] }
    }
}

/// `base64::engine::general_purpose::STANDARD.encode`: the standard Base64
/// writing of the bytes (RFC 4648, with padding).
#[verifier::external_body]
pub(crate) fn base64_encode(data: &[u8]) -> (r: String)
    ensures
        r@ == base64_standard(data@),
{
    base64::engine::general_purpose::STANDARD.encode(data)
}

/// What decoding a text as standard Base64 gives: the bytes, or the
/// decoder's message.
pub uninterp spec fn base64_decoded(text: Seq<char>) -> Result<Seq<u8>, Seq<char>>;

/// `base64::engine::general_purpose::STANDARD.decode`: the bytes the text
/// writes in standard Base64, or the decoder's message.
#[verifier::external_body]
pub(crate) fn base64_decode(text: &str) -> (r: Result<Vec<u8>, String>)
    ensures
        match base64_decoded(text@) {
            Ok(b) => r matches Ok(v) && v@ == b,
            Err(m) => r matches Err(e) && e@ == m,
        },
{
    base64::engine::general_purpose::STANDARD.decode(text).map_err(|e| e.to_string())
}

/// What reading a text as RFC 3339 gives: the instant (seconds since the
/// epoch and nanoseconds) or the parser's message.
pub uninterp spec fn rfc3339_instant(text: Seq<char>) -> Result<(i64, u32), Seq<char>>;

/// `chrono::DateTime::parse_from_rfc3339`, read as an instant (seconds
/// since the epoch and nanoseconds), or the parser's message.
#[verifier::external_body]
pub(crate) fn parse_rfc3339(text: &str) -> (r: Result<(i64, u32), String>)
    ensures
        match rfc3339_instant(text@) {
            Ok(t) => r == Ok::<(i64, u32), String>(t),
            Err(m) => r matches Err(e) && e@ == m,
        },
{
    match chrono::DateTime::parse_from_rfc3339(text) {
        Ok(d) => Ok((d.timestamp(), d.timestamp_subsec_nanos())),
        Err(e) => Err(e.to_string()),
    }
}

pub open spec fn instant_before(a: (i64, u32), b: (i64, u32)) -> bool {
    a.0 < b.0 || (a.0 == b.0 && a.1 < b.1)
}

// ---------------------------------------------------------------------------
// Secret, token and signature
// ---------------------------------------------------------------------------

/// The developer token check: with a non-blank expected token (from the
/// environment), the given token, trimmed, must equal it trimmed.
pub open spec fn token_ok(token: Option<Seq<char>>, expected: Option<Seq<char>>) -> bool {
    match expected {
        Some(e) => trim(e).len() == 0 || trim(match token {
            Some(t) => t,
            None => seq![],
        }) == trim(e),
        None => true,
    }
}

pub fn validate_developer_token(token: Option<&str>, expected: &Option<String>) -> (r: Result<
    (),
    String,
>)
    ensures
        r is Ok <==> token_ok(crate::licensing::opt_str(token), opt_view(*expected)),
        r matches Err(m) ==> m@ == "token do desenvolvedor inválido para operação de licença local"@,
{
    match expected {
        Some(e) => {
            let et = trim_str(e.as_str());
            if et.as_str().is_empty() {
                return Ok(());
            }
            let provided = match token {
                Some(t) => trim_str(t),
                None => String::new(),
            };
            proof {
                reveal_strlit("");
            }
            if !str_eq(provided.as_str(), et.as_str()) {
                return Err(str_to_string("token do desenvolvedor inválido para operação de licença local"));
            }
            Ok(())
        },
        None => Ok(()),
    }
}

/// The secret: the given one trimmed when not blank, else the one from the
/// environment, else an error.
pub fn resolve_secret(input: Option<&str>, env_secret: &Option<String>) -> (r: Result<String, String>)
    ensures
        match crate::licensing::opt_str(input) {
            Some(v) if !is_blank(v) => r matches Ok(s) && s@ == trim(v),
            _ => match *env_secret {
                Some(e) => r matches Ok(s) && s@ == e@,
                None => r matches Err(m) && m@
                    == "secret do desenvolvedor não informado (use --local-license-secret ou LICENSE_LOCAL_DEV_SECRET)"@,
            },
        },
{
    match input {
        Some(v) => {
            if !crate::text::is_blank_str(v) {
                return Ok(trim_str(v));
            }
        },
        None => {},
    }
    match env_secret {
        Some(e) => Ok(copy_string(e)),
        None => Err(
            str_to_string(
                "secret do desenvolvedor não informado (use --local-license-secret ou LICENSE_LOCAL_DEV_SECRET)",
            ),
        ),
    }
}

/// The signature of a document: the Base64 SHA-256 digest of the secret,
/// `|` and the document's JSON bytes.
pub open spec fn signature_of(secret: Seq<char>, unsigned_json: Seq<u8>) -> Seq<char> {
    base64_standard(sha256_digest(vstd::utf8::encode_utf8(secret) + seq![124u8] + unsigned_json))
}

pub fn sign_document(unsigned_json: &[u8], secret: &str) -> (r: String)
    ensures
        r@ == signature_of(secret@, unsigned_json@),
{
    let mut data: Vec<u8> = Vec::new();
    let sb = secret.as_bytes();
    for i in 0..sb.len()
        invariant
            data@ == sb@.take(i as int),
    {
        data.push(sb[i]);
        proof {
            assert(sb@.take(i + 1) =~= sb@.take(i as int).push(sb@[i as int]));
        }
    }
    proof {
        assert(sb@.take(sb@.len() as int) =~= sb@);
    }
    data.push(124u8);
    let ghost head = data@;
    for j in 0..unsigned_json.len()
        invariant
            data@ == head + unsigned_json@.take(j as int),
    {
        data.push(unsigned_json[j]);
        proof {
            assert(unsigned_json@.take(j + 1) =~= unsigned_json@.take(j as int).push(
                unsigned_json@[j as int],
            ));
        }
    }
    proof {
        assert(unsigned_json@.take(unsigned_json@.len() as int) =~= unsigned_json@);
        assert(sb@ == vstd::utf8::encode_utf8(secret@));
        assert(data@ =~= vstd::utf8::encode_utf8(secret@) + seq![124u8] + unsigned_json@);
    }
    let digest = sha256(data.as_slice());
    base64_encode(digest.as_slice())
}

// ---------------------------------------------------------------------------
// Base32 and the otpauth link
// ---------------------------------------------------------------------------

/// Bit `j` of the bytes read most significant bit first (zero past the
/// end).
pub open spec fn stream_bit(bytes: Seq<u8>, j: int) -> nat {
    if 0 <= j < 8 * bytes.len() {
        ((bytes[j / 8] >> ((7 - j % 8) as u8)) & 1u8) as nat
    } else {
        0
    }
}

/// The `k`-th group of five bits of the stream, as a number.
pub open spec fn quintet(bytes: Seq<u8>, k: int) -> nat {
    stream_bit(bytes, 5 * k) * 16 + stream_bit(bytes, 5 * k + 1) * 8 + stream_bit(bytes, 5 * k + 2) * 4
        + stream_bit(bytes, 5 * k + 3) * 2 + stream_bit(bytes, 5 * k + 4)
}

pub open spec fn base32_digit(v: nat) -> char {
    if v < 26 {
        ((65 + v) as u8) as char
    } else {
        ((24 + v) as u8) as char
    }
}

/// Base32 (RFC 4648 alphabet, no padding): one digit per group of five
/// bits of the bytes, the last group completed with zeros.
pub open spec fn base32_spec(bytes: Seq<u8>) -> Seq<char> {
    Seq::new(((8 * bytes.len() + 4) / 5) as nat, |k: int| base32_digit(quintet(bytes, k)))
}

fn stream_bit_exec(bytes: &[u8], j: u128) -> (r: u8)
    ensures
        r as nat == stream_bit(bytes@, j as int),
        r <= 1,
{
    let n = bytes.len() as u128;
    if j < 8 * n {
        let b = bytes[(j / 8) as usize];
        let s = (7 - j % 8) as u8;
        let r = (b >> s) & 1u8;
        assert(r <= 1) by (bit_vector)
            requires
                r == (b >> s) & 1u8,
        ;
        r
    } else {
        0
    }
}

pub fn base32_encode(bytes: &[u8]) -> (r: String)
    ensures
        r@ == base32_spec(bytes@),
{
    let n = bytes.len() as u128;
    let m = (8 * n + 4) / 5;
    let mut out: Vec<char> = Vec::new();
    let mut k: u128 = 0;
    while k < m
        invariant
            n == bytes@.len(),
            n <= 0xffff_ffff_ffff_ffffu128,
            m == (8 * n + 4) / 5,
            k <= m,
            out@ =~= base32_spec(bytes@).take(k as int),
        decreases m - k,
    {
        let b0 = stream_bit_exec(bytes, 5 * k) as u32;
        let b1 = stream_bit_exec(bytes, 5 * k + 1) as u32;
        let b2 = stream_bit_exec(bytes, 5 * k + 2) as u32;
        let b3 = stream_bit_exec(bytes, 5 * k + 3) as u32;
        let b4 = stream_bit_exec(bytes, 5 * k + 4) as u32;
        let v = b0 * 16 + b1 * 8 + b2 * 4 + b3 * 2 + b4;
        let c = if v < 26 {
            ((65 + v) as u8) as char
        } else {
            ((24 + v) as u8) as char
        };
        out.push(c);
        proof {
            assert(v as nat == quintet(bytes@, k as int));
            assert(base32_spec(bytes@).take(k + 1) =~= base32_spec(bytes@).take(k as int).push(c));
        }
        k = k + 1;
    }
    string_of(&out)
}

/// The Base32 writing of `n` bytes has ⌈8n/5⌉ digits.
pub proof fn lemma_base32_len(bytes: Seq<u8>)
    ensures
        base32_spec(bytes).len() * 5 >= 8 * bytes.len(),
        base32_spec(bytes).len() * 5 < 8 * bytes.len() + 5,
{
}

/// A text for a link: trimmed, spaces written `%20`.
pub open spec fn link_text(s: Seq<char>) -> Seq<char> {
    replace(trim(s), seq![' '], "%20"@)
}

/// The `otpauth://totp/` link that carries the secret for an
/// authenticator: issuer, account, the secret in Base32, issuer again.
pub open spec fn otpauth_uri_spec(issuer: Seq<char>, account: Seq<char>, secret: Seq<char>) -> Seq<char> {
    "otpauth://totp/"@ + link_text(issuer) + ":"@ + link_text(account) + "?secret="@ + base32_spec(
        vstd::utf8::encode_utf8(secret),
    ) + "&issuer="@ + link_text(issuer)
}

fn link_text_of(s: &str) -> (r: Vec<char>)
    ensures
        r@ == link_text(s@),
{
    let t = crate::text::trim_chars(&chars_of(s));
    let mut sp: Vec<char> = Vec::new();
    sp.push(' ');
    proof {
        assert(sp@ =~= seq![' ']);
    }
    crate::text::replace_chars(&t, &sp, &chars_of("%20"))
}

pub fn build_otpauth_uri(issuer: &str, account: &str, secret: &str) -> (r: String)
    ensures
        r@ == otpauth_uri_spec(issuer@, account@, secret@),
{
    let issuer_clean = link_text_of(issuer);
    let account_clean = link_text_of(account);
    let b32 = base32_encode(secret.as_bytes());
    let mut v = chars_of("otpauth://totp/");
    append_chars(&mut v, &issuer_clean);
    append_str(&mut v, ":");
    append_chars(&mut v, &account_clean);
    append_str(&mut v, "?secret=");
    append_chars(&mut v, &chars_of_string(&b32));
    append_str(&mut v, "&issuer=");
    append_chars(&mut v, &issuer_clean);
    string_of(&v)
}

/// The text trimmed, or the default when it is blank.
pub open spec fn non_empty_spec(value: Seq<char>, default: Seq<char>) -> Seq<char> {
    if is_blank(value) {
        default
    } else {
        trim(value)
    }
}

pub fn non_empty(value: String, default: &str) -> (r: String)
    ensures
        r@ == non_empty_spec(value@, default@),
{
    if crate::text::is_blank_str(value.as_str()) {
        str_to_string(default)
    } else {
        trim_str(value.as_str())
    }
}

// ---------------------------------------------------------------------------
// Generating a license
// ---------------------------------------------------------------------------

/// The developer's token and secret as the environment gives them.
pub struct LocalLicenseEnv {
    pub dev_token: Option<String>,
    pub dev_secret: Option<String>,
}

pub open spec fn opt_text_view(o: Option<&str>) -> Option<Seq<char>> {
    crate::licensing::opt_str(o)
}

fn opt_ref(o: &Option<String>) -> (r: Option<&str>)
    ensures
        opt_text_view(r) == opt_view(*o),
{
    match o {
        Some(v) => Some(v.as_str()),
        None => None,
    }
}

pub open spec fn non_blank_opt(o: Option<String>) -> Option<Seq<char>> {
    match o {
        Some(v) => if is_blank(v@) {
            None
        } else {
            Some(v@)
        },
        None => None,
    }
}

fn non_blank_clone(o: &Option<String>) -> (r: Option<String>)
    ensures
        opt_view(r) == non_blank_opt(*o),
{
    match o {
        Some(v) => if crate::text::is_blank_str(v.as_str()) {
            None
        } else {
            Some(copy_string(v))
        },
        None => None,
    }
}

/// The license document a request describes, before it is signed: the
/// request's texts trimmed, the document's digits, the default instance
/// and issuer, a blank expiry left out.
pub open spec fn unsigned_from_request(
    r: LocalLicenseDocument,
    request: GenerateLocalLicenseRequest,
    issued_at: Seq<char>,
) -> bool {
    &&& r.version == 1
    &&& r.issuer@ == match request.issuer_name {
        Some(v) => v@,
        None => "WWSoftwares Local License"@,
    }
    &&& r.app_instance@ == non_empty_spec(request.app_instance@, "integra-desktop"@)
    &&& r.company_name@ == trim(request.company_name@)
    &&& r.company_document@ == digits(request.company_document@)
    &&& r.company_email@ == trim(request.company_email@)
    &&& r.station_name@ == trim(request.station_name@)
    &&& r.machine_key@ == trim(request.machine_key@)
    &&& r.serial_number@ == trim(request.serial_number@)
    &&& r.requested_licenses == request.requested_licenses
    &&& r.issued_at@ == issued_at
    &&& opt_view(r.expires_at) == non_blank_opt(request.expires_at)
    &&& r.signature@.len() == 0
}

/// Checks the developer's token, finds the secret and builds the document
/// to sign, issued at `issued_at`.
pub fn prepare_local_license(
    request: &GenerateLocalLicenseRequest,
    env: &LocalLicenseEnv,
    issued_at: &str,
) -> (r: Result<(LocalLicenseDocument, String), String>)
    ensures
        !token_ok(opt_view(request.developer_token), opt_view(env.dev_token)) ==> r is Err,
        r matches Ok((doc, secret)) ==> {
            &&& token_ok(opt_view(request.developer_token), opt_view(env.dev_token))
            &&& unsigned_from_request(doc, *request, issued_at@)
            &&& secret@ == match non_blank_opt(request.developer_secret) {
                Some(v) => trim(v),
                None => match env.dev_secret {
                    Some(e) => e@,
                    None => seq![],
                },
            }
        },
        token_ok(opt_view(request.developer_token), opt_view(env.dev_token)) ==> (r is Ok
            <==> (non_blank_opt(request.developer_secret) is Some || env.dev_secret is Some)),
{
    validate_developer_token(opt_ref(&request.developer_token), &env.dev_token)?;
    let secret = resolve_secret(opt_ref(&request.developer_secret), &env.dev_secret)?;
    let issuer = match &request.issuer_name {
        Some(v) => copy_string(v),
        None => str_to_string("WWSoftwares Local License"),
    };
    let doc = LocalLicenseDocument {
        version: 1,
        issuer,
        app_instance: non_empty(copy_string(&request.app_instance), "integra-desktop"),
        company_name: trim_str(request.company_name.as_str()),
        company_document: only_digits(request.company_document.as_str()),
        company_email: trim_str(request.company_email.as_str()),
        station_name: trim_str(request.station_name.as_str()),
        machine_key: trim_str(request.machine_key.as_str()),
        serial_number: trim_str(request.serial_number.as_str()),
        requested_licenses: request.requested_licenses,
        issued_at: str_to_string(issued_at),
        expires_at: non_blank_clone(&request.expires_at),
        signature: String::new(),
    };
    Ok((doc, secret))
}

/// The generated license: the signed document, its file content and
/// path (a blank path left out), the signature and the otpauth link for
/// the account (the document's number when none is given).
pub fn finish_local_license(
    request: &GenerateLocalLicenseRequest,
    payload: LocalLicenseDocument,
    file_content: String,
    secret: &str,
) -> (r: GeneratedLocalLicense)
    ensures
        r.file_content@ == file_content@,
        opt_view(r.file_path) == non_blank_opt(request.output_path),
        r.signature@ == payload.signature@,
        opt_view(r.otpauth_uri) == Some(
            otpauth_uri_spec(
                payload.issuer@,
                match non_blank_opt(request.account_name) {
                    Some(a) => a,
                    None => payload.company_document@,
                },
                secret@,
            ),
        ),
        r.payload == payload,
{
    let account = match non_blank_clone(&request.account_name) {
        Some(a) => a,
        None => copy_string(&payload.company_document),
    };
    let otpauth_uri = Some(build_otpauth_uri(payload.issuer.as_str(), account.as_str(), secret));
    let signature = copy_string(&payload.signature);
    GeneratedLocalLicense {
        file_content,
        file_path: non_blank_clone(&request.output_path),
        signature,
        otpauth_uri,
        payload,
    }
}

// ---------------------------------------------------------------------------
// Validating a license
// ---------------------------------------------------------------------------

/// A license file as read: its document, where it came from, and the JSON
/// bytes of its unsigned part.
pub struct LoadedLocalLicense {
    pub payload: LocalLicenseDocument,
    pub file_path: Option<String>,
    pub unsigned_json: Vec<u8>,
}

/// Why a license is refused, or that it is valid.
#[derive(PartialEq, Eq, Structural, Clone, Copy)]
pub enum LocalVerdict {
    SignatureInvalid,
    Expired,
    CompanyMismatch,
    MachineMismatch,
    Valid,
}

/// The verdict on a license whose expiry (when it has one) was read as
/// `expiry`, at time `now`.
pub open spec fn local_verdict(
    request: ValidateLocalLicenseRequest,
    secret: Seq<char>,
    loaded: LoadedLocalLicense,
    expiry: Option<(i64, u32)>,
    now: (i64, u32),
) -> LocalVerdict {
    let p = loaded.payload;
    if signature_of(secret, loaded.unsigned_json@) != p.signature@ {
        LocalVerdict::SignatureInvalid
    } else if expiry matches Some(t) && instant_before(t, now) {
        LocalVerdict::Expired
    } else if non_blank_opt(request.company_document) matches Some(d) && digits(d) != digits(
        p.company_document@,
    ) {
        LocalVerdict::CompanyMismatch
    } else if request.enforce_machine_match && (non_blank_opt(request.machine_key) matches Some(k)
        && trim(k) != trim(p.machine_key@)) {
        LocalVerdict::MachineMismatch
    } else {
        LocalVerdict::Valid
    }
}

pub open spec fn verdict_code(v: LocalVerdict) -> Seq<char> {
    match v {
        LocalVerdict::SignatureInvalid => "LOCAL_LICENSE_SIGNATURE_INVALID"@,
        LocalVerdict::Expired => "LOCAL_LICENSE_EXPIRED"@,
        LocalVerdict::CompanyMismatch => "LOCAL_LICENSE_COMPANY_MISMATCH"@,
        LocalVerdict::MachineMismatch => "LOCAL_LICENSE_MACHINE_MISMATCH"@,
        LocalVerdict::Valid => "LOCAL_LICENSE_VALID"@,
    }
}

pub open spec fn verdict_message(v: LocalVerdict) -> Seq<char> {
    match v {
        LocalVerdict::SignatureInvalid => "a assinatura da licença local é inválida"@,
        LocalVerdict::Expired => "a licença local expirou"@,
        LocalVerdict::CompanyMismatch => "o documento da licença local não corresponde à empresa informada"@,
        LocalVerdict::MachineMismatch => "a licença local não corresponde à máquina atual"@,
        LocalVerdict::Valid => "licença local validada com sucesso"@,
    }
}

/// The expiry as read, when the signature holds and there is one: the
/// instant, or the parser's message.
pub open spec fn expiry_reading(secret: Seq<char>, loaded: LoadedLocalLicense) -> Option<Result<(i64, u32), Seq<char>>> {
    if signature_of(secret, loaded.unsigned_json@) != loaded.payload.signature@ {
        None
    } else {
        match loaded.payload.expires_at {
            Some(e) => Some(rfc3339_instant(e@)),
            None => None,
        }
    }
}

/// What a validation answers for a verdict.
pub open spec fn validation_result_ok(
    r: LocalLicenseValidationResult,
    v: LocalVerdict,
    secret: Seq<char>,
    loaded: LoadedLocalLicense,
) -> bool {
    &&& r.valid == (v == LocalVerdict::Valid)
    &&& r.reason_code@ == verdict_code(v)
    &&& r.message@ == verdict_message(v)
    &&& opt_view(r.file_path) == opt_view(loaded.file_path)
    &&& opt_view(r.otpauth_uri) == Some(
        otpauth_uri_spec(loaded.payload.issuer@, loaded.payload.company_document@, secret),
    )
    &&& r.payload == Some(loaded.payload)
}

fn validation_result(
    v: LocalVerdict,
    secret: &str,
    loaded: LoadedLocalLicense,
) -> (r: LocalLicenseValidationResult)
    ensures
        validation_result_ok(r, v, secret@, loaded),
{
    let (code, message) = match v {
        LocalVerdict::SignatureInvalid => (
            "LOCAL_LICENSE_SIGNATURE_INVALID",
            "a assinatura da licença local é inválida",
        ),
        LocalVerdict::Expired => ("LOCAL_LICENSE_EXPIRED", "a licença local expirou"),
        LocalVerdict::CompanyMismatch => (
            "LOCAL_LICENSE_COMPANY_MISMATCH",
            "o documento da licença local não corresponde à empresa informada",
        ),
        LocalVerdict::MachineMismatch => (
            "LOCAL_LICENSE_MACHINE_MISMATCH",
            "a licença local não corresponde à máquina atual",
        ),
        LocalVerdict::Valid => ("LOCAL_LICENSE_VALID", "licença local validada com sucesso"),
    };
    let otpauth = build_otpauth_uri(
        loaded.payload.issuer.as_str(),
        loaded.payload.company_document.as_str(),
        secret,
    );
    LocalLicenseValidationResult {
        valid: v == LocalVerdict::Valid,
        reason_code: str_to_string(code),
        message: str_to_string(message),
        file_path: loaded.file_path,
        otpauth_uri: Some(otpauth),
        payload: Some(loaded.payload),
    }
}

/// Where the text of a local license comes from: the content sent inline
/// (already decoded) with the request's file path, or a file to read.
pub enum LicenseContent {
    Inline { text: String, file_path: Option<String> },
    File { path: String },
}

/// The source of a license's text: the inline Base64 content when it is
/// not blank (decoded, then read as UTF-8), else the file path when it is
/// not blank, else an error.
pub fn license_content_source(request: &ValidateLocalLicenseRequest) -> (r: Result<LicenseContent, String>)
    ensures
        match non_blank_opt(request.content_b64) {
            Some(c) => match base64_decoded(c) {
                Err(m) => r matches Err(e) && e@ == m,
                Ok(b) => if vstd::utf8::valid_utf8(b) {
                    r matches Ok(LicenseContent::Inline { text, file_path }) && text@ == vstd::utf8::decode_utf8(b)
                        && opt_view(file_path) == opt_view(request.file_path)
                } else {
                    r matches Err(e) && e@ == crate::faturas_process::utf8_error_text(b)
                },
            },
            None => match non_blank_opt(request.file_path) {
                Some(p) => r matches Ok(LicenseContent::File { path }) && path@ == p,
                None => r matches Err(e) && e@ == "arquivo de licença local não informado"@,
            },
        },
{
    match non_blank_clone(&request.content_b64) {
        Some(c) => {
            let bytes = base64_decode(c.as_str())?;
            let text = crate::faturas_process::utf8_text(&bytes)?;
            Ok(LicenseContent::Inline { text, file_path: opt_string_clone(&request.file_path) })
        },
        None => match non_blank_clone(&request.file_path) {
            Some(p) => Ok(LicenseContent::File { path: p }),
            None => {
                proof {
                    reveal_strlit("arquivo de licença local não informado");
                }
                Err(str_to_string("arquivo de licença local não informado"))
            },
        },
    }
}

/// What validating a local license gives for a request (see
/// `validate_local_license`).
pub open spec fn validation_of(
    request: ValidateLocalLicenseRequest,
    env: LocalLicenseEnv,
    loaded: Result<LoadedLocalLicense, String>,
    now: (i64, u32),
    r: Result<LocalLicenseValidationResult, String>,
) -> bool {
    &&& !token_ok(opt_view(request.developer_token), opt_view(env.dev_token)) ==> (r matches Err(m)
        && m@ == "token do desenvolvedor inválido para operação de licença local"@)
    &&& token_ok(opt_view(request.developer_token), opt_view(env.dev_token)) ==> {
        match (non_blank_opt(request.developer_secret), env.dev_secret) {
            (None, None) => r matches Err(m) && m@
                == "secret do desenvolvedor não informado (use --local-license-secret ou LICENSE_LOCAL_DEV_SECRET)"@,
            _ => {
                let secret = match non_blank_opt(request.developer_secret) {
                    Some(v) => trim(v),
                    None => env.dev_secret.unwrap()@,
                };
                match loaded {
                    Err(e) => r == Err::<LocalLicenseValidationResult, String>(e),
                    Ok(l) => match expiry_reading(secret, l) {
                        Some(Err(m)) => r matches Err(e) && e@ == m,
                        reading => r matches Ok(res) && validation_result_ok(
                            res,
                            local_verdict(
                                request,
                                secret,
                                l,
                                match reading {
                                    Some(Ok(t)) => Some(t),
                                    _ => None,
                                },
                                now,
                            ),
                            secret,
                            l,
                        ),
                    },
                }
            },
        }
    }
}

/// A license signed with the developer's secret validates: with the token
/// accepted, the secret given, the file read, its signature made with that
/// secret over its unsigned content, no expiry or one not before `now`,
/// and neither the company nor the machine to match, the answer is valid
/// and carries the license read.
pub proof fn law_signed_license_validates(
    request: ValidateLocalLicenseRequest,
    env: LocalLicenseEnv,
    l: LoadedLocalLicense,
    now: (i64, u32),
    r: Result<LocalLicenseValidationResult, String>,
    s: Seq<char>,
)
    requires
        validation_of(request, env, Ok(l), now, r),
        token_ok(opt_view(request.developer_token), opt_view(env.dev_token)),
        non_blank_opt(request.developer_secret) == Some(s),
        l.payload.signature@ == signature_of(trim(s), l.unsigned_json@),
        l.payload.expires_at matches Some(e) ==> (rfc3339_instant(e@) matches Ok(t) && (now.0 < t.0 || (now.0
            == t.0 && now.1 <= t.1))),
        non_blank_opt(request.company_document) is None,
        !request.enforce_machine_match,
    ensures
        r matches Ok(v) && v.valid && v.reason_code@ == "LOCAL_LICENSE_VALID"@ && v.payload == Some(l.payload),
{
}

/// A license signed with the developer's secret that expired before `now`
/// is answered as expired (not valid), whatever company or machine it
/// names.
pub proof fn law_expired_license_refused(
    request: ValidateLocalLicenseRequest,
    env: LocalLicenseEnv,
    l: LoadedLocalLicense,
    now: (i64, u32),
    r: Result<LocalLicenseValidationResult, String>,
    s: Seq<char>,
    t: (i64, u32),
)
    requires
        validation_of(request, env, Ok(l), now, r),
        token_ok(opt_view(request.developer_token), opt_view(env.dev_token)),
        non_blank_opt(request.developer_secret) == Some(s),
        l.payload.signature@ == signature_of(trim(s), l.unsigned_json@),
        l.payload.expires_at matches Some(e) && rfc3339_instant(e@) == Ok::<(i64, u32), Seq<char>>(t),
        t.0 < now.0 || (t.0 == now.0 && t.1 < now.1),
    ensures
        r matches Ok(v) && !v.valid && v.reason_code@ == "LOCAL_LICENSE_EXPIRED"@,
{
    reveal_strlit("LOCAL_LICENSE_EXPIRED");
    reveal_strlit("LOCAL_LICENSE_VALID");
}

/// Validates a local license: the developer's token and secret, then the
/// file as read (or why it could not be), its signature, its expiry at
/// time `now`, the company and (when enforced) the machine.
pub fn validate_local_license(
    request: &ValidateLocalLicenseRequest,
    env: &LocalLicenseEnv,
    loaded: Result<LoadedLocalLicense, String>,
    now: (i64, u32),
) -> (r: Result<LocalLicenseValidationResult, String>)
    ensures
        validation_of(*request, *env, loaded, now, r),
{
    validate_developer_token(opt_ref(&request.developer_token), &env.dev_token)?;
    let secret = resolve_secret(opt_ref(&request.developer_secret), &env.dev_secret)?;
    proof {
        assert(secret@ == match non_blank_opt(request.developer_secret) {
            Some(v) => trim(v),
            None => env.dev_secret.unwrap()@,
        });
    }
    let loaded = match loaded {
        Ok(l) => l,
        Err(e) => {
            return Err(e);
        },
    };
    let expected = sign_document(loaded.unsigned_json.as_slice(), secret.as_str());
    if !str_eq(expected.as_str(), loaded.payload.signature.as_str()) {
        return Ok(validation_result(LocalVerdict::SignatureInvalid, secret.as_str(), loaded));
    }
    let mut expired = false;
    match &loaded.payload.expires_at {
        Some(e) => {
            match parse_rfc3339(e.as_str()) {
                Ok(t) => {
                    expired = t.0 < now.0 || (t.0 == now.0 && t.1 < now.1);
                },
                Err(m) => {
                    return Err(m);
                },
            }
        },
        None => {},
    }
    if expired {
        return Ok(validation_result(LocalVerdict::Expired, secret.as_str(), loaded));
    }
    let company_mismatch = match non_blank_clone(&request.company_document) {
        Some(d) => !str_eq(
            only_digits(d.as_str()).as_str(),
            only_digits(loaded.payload.company_document.as_str()).as_str(),
        ),
        None => false,
    };
    if company_mismatch {
        return Ok(validation_result(LocalVerdict::CompanyMismatch, secret.as_str(), loaded));
    }
    if request.enforce_machine_match {
        let machine_mismatch = match non_blank_clone(&request.machine_key) {
            Some(k) => !str_eq(
                trim_str(k.as_str()).as_str(),
                trim_str(loaded.payload.machine_key.as_str()).as_str(),
            ),
            None => false,
        };
        if machine_mismatch {
            return Ok(validation_result(LocalVerdict::MachineMismatch, secret.as_str(), loaded));
        }
    }
    Ok(validation_result(LocalVerdict::Valid, secret.as_str(), loaded))
}

/// The request of a startup with local licensing: the file given on the
/// command line, else the default file; the company and machine given;
/// the startup's token and secret; no inline content; no machine check.
pub open spec fn startup_request(
    q: ValidateLocalLicenseRequest,
    startup: ParsedStartupLicenseArgs,
    company_document: Option<&str>,
    machine_key: Option<&str>,
    default_path: Option<String>,
) -> bool {
    &&& opt_view(q.file_path) == match startup.public.local_license_file_path {
        Some(p) => Some(p@),
        None => opt_view(default_path),
    }
    &&& q.content_b64 is None
    &&& opt_view(q.company_document) == opt_text_view(company_document)
    &&& opt_view(q.machine_key) == opt_text_view(machine_key)
    &&& opt_view(q.developer_token) == opt_view(startup.local_license_token)
    &&& opt_view(q.developer_secret) == opt_view(startup.developer_secret)
    &&& !q.enforce_machine_match
}

/// The request a startup with local licensing validates: the file given
/// on the command line, else the default file; the company and machine
/// given; the startup's token and secret; no machine check.  None when
/// local licensing was not asked for.
pub fn local_license_request_from_startup(
    startup: &ParsedStartupLicenseArgs,
    company_document: Option<&str>,
    machine_key: Option<&str>,
    default_path: &Option<String>,
) -> (r: Option<ValidateLocalLicenseRequest>)
    ensures
        !startup.public.local_license_enabled <==> r is None,
        r matches Some(q) ==> startup_request(q, *startup, company_document, machine_key, *default_path),
{
    if !startup.public.local_license_enabled {
        return None;
    }
    let file_path = match &startup.public.local_license_file_path {
        Some(p) => Some(copy_string(p)),
        None => opt_string_clone(default_path),
    };
    Some(
        ValidateLocalLicenseRequest {
            file_path,
            content_b64: None,
            company_document: match company_document {
                Some(v) => Some(str_to_string(v)),
                None => None,
            },
            machine_key: match machine_key {
                Some(v) => Some(str_to_string(v)),
                None => None,
            },
            developer_token: opt_string_clone(&startup.local_license_token),
            developer_secret: opt_string_clone(&startup.developer_secret),
            enforce_machine_match: false,
        },
    )
}

/// What the local license check of a startup gives: none when local
/// licensing was not asked for, else the validation of the request of the
/// startup (an error for an error, `Some` of the answer otherwise).
pub open spec fn startup_outcome(
    r: Result<Option<LocalLicenseValidationResult>, String>,
    startup: ParsedStartupLicenseArgs,
    company_document: Option<&str>,
    machine_key: Option<&str>,
    default_path: Option<String>,
    env: LocalLicenseEnv,
    loaded: Result<LoadedLocalLicense, String>,
    now: (i64, u32),
) -> bool {
    &&& !startup.public.local_license_enabled ==> (r matches Ok(None))
    &&& startup.public.local_license_enabled ==> exists|q: ValidateLocalLicenseRequest|
        #[trigger] startup_request(q, startup, company_document, machine_key, default_path) && match r {
            Ok(Some(v)) => validation_of(q, env, loaded, now, Ok(v)),
            Err(e) => validation_of(q, env, loaded, now, Err(e)),
            Ok(None) => false,
        }
}

/// The local license check of a startup answers what validating the
/// startup's request answers: the same error, or an answer with the same
/// validity, reason, message, file and license.
pub proof fn law_startup_check_is_validation(
    r: Result<Option<LocalLicenseValidationResult>, String>,
    startup: ParsedStartupLicenseArgs,
    company_document: Option<&str>,
    machine_key: Option<&str>,
    default_path: Option<String>,
    env: LocalLicenseEnv,
    loaded: Result<LoadedLocalLicense, String>,
    now: (i64, u32),
    q: ValidateLocalLicenseRequest,
    v: Result<LocalLicenseValidationResult, String>,
)
    requires
        startup.public.local_license_enabled,
        startup_outcome(r, startup, company_document, machine_key, default_path, env, loaded, now),
        startup_request(q, startup, company_document, machine_key, default_path),
        validation_of(q, env, loaded, now, v),
    ensures
        match (r, v) {
            (Err(e1), Err(e2)) => e1@ == e2@,
            (Ok(Some(a)), Ok(b)) => {
                &&& a.valid == b.valid
                &&& a.reason_code@ == b.reason_code@
                &&& a.message@ == b.message@
                &&& opt_view(a.file_path) == opt_view(b.file_path)
                &&& opt_view(a.otpauth_uri) == opt_view(b.otpauth_uri)
                &&& a.payload == b.payload
            },
            _ => false,
        },
{
    let q1 = choose|q1: ValidateLocalLicenseRequest|
        #[trigger] startup_request(q1, startup, company_document, machine_key, default_path) && match r {
            Ok(Some(x)) => validation_of(q1, env, loaded, now, Ok(x)),
            Err(e) => validation_of(q1, env, loaded, now, Err(e)),
            Ok(None) => false,
        };
    assert(non_blank_opt(q1.developer_secret) == non_blank_opt(q.developer_secret));
    assert(non_blank_opt(q1.company_document) == non_blank_opt(q.company_document));
    assert(non_blank_opt(q1.machine_key) == non_blank_opt(q.machine_key));
    assert(opt_view(q1.developer_token) == opt_view(q.developer_token));
    match loaded {
        Ok(l) => {
            let secret = match non_blank_opt(q.developer_secret) {
                Some(x) => trim(x),
                None => env.dev_secret.unwrap()@,
            };
            let reading = expiry_reading(secret, l);
            let t = match reading {
                Some(Ok(t)) => Some(t),
                _ => None,
            };
            assert(local_verdict(q1, secret, l, t, now) == local_verdict(q, secret, l, t, now));
        },
        Err(_) => {},
    }
}

/// The local license check of a startup: none when local licensing was
/// not asked for, else the validation of the file read for the request of
/// `local_license_request_from_startup`.
pub fn validate_local_license_from_startup(
    startup: &ParsedStartupLicenseArgs,
    company_document: Option<&str>,
    machine_key: Option<&str>,
    default_path: &Option<String>,
    env: &LocalLicenseEnv,
    loaded: Result<LoadedLocalLicense, String>,
    now: (i64, u32),
) -> (r: Result<Option<LocalLicenseValidationResult>, String>)
    ensures
        startup_outcome(r, *startup, company_document, machine_key, *default_path, *env, loaded, now),
{
    match local_license_request_from_startup(startup, company_document, machine_key, default_path) {
        None => Ok(None),
        Some(request) => {
            match validate_local_license(&request, env, loaded, now) {
                Ok(result) => Ok(Some(result)),
                Err(e) => Err(e),
            }
        },
    }
}

} // verus!
