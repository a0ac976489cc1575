//! The license check: preparing what is sent, falling back on the offline
//! cache, judging the service's answer, and describing the device.
use sha2::Digest;
use vstd::prelude::*;

use crate::license_models::{
    copy_device, same_device, same_opt_device, CompanyRecord, DeviceCollectedInfo, DeviceRecord,
    LicenseApiResponse, LicenseCheckInput, LicenseConfig, LicenseDecision, LicenseError,
    LicenseRecord, moment_before, moment_is_before,
};
use crate::sped::texts;
use crate::text::{
    append_chars, append_str, chars_of, chars_of_string, contains_char, contains_char_chars,
    copy_string, decimal, decimal_chars, digits, is_blank, is_blank_chars, join, join_strings,
    lines_chars, lines_of, lower_seq, opt_or_empty, opt_string_clone, opt_text_or_empty,
    opt_view, only_digits, replace, split_on, split_ws, str_eq, str_to_string, string_of, trim,
    trim_chars, words, words_chars,
};

verus! {

// ---------------------------------------------------------------------------
// Digests
// ---------------------------------------------------------------------------

/// The SHA-256 digest of some bytes.
pub uninterp spec fn sha256_digest(data: Seq<u8>) -> Seq<u8>;

/// `sha2::Sha256::digest`: the 32-byte SHA-256 digest of the data.
#[verifier::external_body]
pub(crate) fn sha256(data: &[u8]) -> (r: Vec<u8>)
    ensures
        r@ == sha256_digest(data@),
        r@.len() == 32,
{
    sha2::Sha256::digest(data).to_vec()
}

pub open spec fn hex_digit(n: u8) -> char {
    if n < 10 {
        ((48 + n) as u8) as char
    } else {
        ((87 + n) as u8) as char
    }
}

/// Each byte as two lower-case hexadecimal digits, high nibble first.
pub open spec fn hex_lower(bytes: Seq<u8>) -> Seq<char>
    decreases bytes.len(),
{
    if bytes.len() == 0 {
        seq![]
    } else {
        hex_lower(bytes.drop_last()) + seq![
            hex_digit(bytes.last() / 16),
            hex_digit(bytes.last() % 16),
        ]
    }
}

/// A lower-case hexadecimal digit.
pub open spec fn is_hex_lower(c: char) -> bool {
    ('0' <= c && c <= '9') || ('a' <= c && c <= 'f')
}

/// A device key as generated: 64 lower-case hexadecimal digits.
pub open spec fn hex_key(s: Seq<char>) -> bool {
    s.len() == 64 && forall|i: int| 0 <= i < s.len() ==> is_hex_lower(#[trigger] s[i])
}

/// Bytes in hexadecimal take two lower-case hexadecimal digits each.
pub proof fn lemma_hex_lower(bytes: Seq<u8>)
    ensures
        hex_lower(bytes).len() == 2 * bytes.len(),
        forall|i: int| 0 <= i < hex_lower(bytes).len() ==> is_hex_lower(#[trigger] hex_lower(bytes)[i]),
    decreases bytes.len(),
{
    if bytes.len() > 0 {
        lemma_hex_lower(bytes.drop_last());
        let b = bytes.last();
        let hi: u8 = b / 16;
        let lo: u8 = b % 16;
        assert(is_hex_lower(hex_digit(hi))) by {
            assert(hi < 16);
        }
        assert(is_hex_lower(hex_digit(lo))) by {
            assert(lo < 16);
        }
        let prev = hex_lower(bytes.drop_last());
        assert forall|i: int| 0 <= i < hex_lower(bytes).len() implies is_hex_lower(#[trigger] hex_lower(bytes)[i]) by {
            if i < prev.len() {
                assert(hex_lower(bytes)[i] == prev[i]);
            }
        }
    }
}

/// `hex::encode`: the bytes written as lower-case hexadecimal digits.
#[verifier::external_body]
pub(crate) fn hex_encode(bytes: &[u8]) -> (r: String)
    ensures
        r@ == hex_lower(bytes@),
{
    hex::encode(bytes)
}

// ---------------------------------------------------------------------------
// Device description
// ---------------------------------------------------------------------------

pub open spec fn device_key_parts(input: LicenseCheckInput) -> Seq<Seq<char>> {
    seq![
        input.app_id@,
        opt_or_empty(input.app_slug),
        opt_or_empty(input.machine_guid),
        opt_or_empty(input.bios_serial),
        opt_or_empty(input.motherboard_serial),
        if input.mac_addresses@.len() > 0 {
            input.mac_addresses@[0]@
        } else {
            seq![]
        },
        opt_or_empty(input.hostname),
        opt_or_empty(input.os_name),
        opt_or_empty(input.os_arch),
    ]
}

/// The key of a device: the SHA-256 digest, in hexadecimal, of the
/// application and machine identifiers joined with `|`.
pub open spec fn device_key_of(input: LicenseCheckInput) -> Seq<char> {
    hex_lower(sha256_digest(vstd::utf8::encode_utf8(join(device_key_parts(input), "|"@))))
}

pub fn generate_device_key(input: &LicenseCheckInput) -> (r: String)
    ensures
        r@ == device_key_of(*input),
        hex_key(r@),
{
    let first_mac = if input.mac_addresses.len() > 0 {
        copy_string(&input.mac_addresses[0])
    } else {
        String::new()
    };
    let parts = vec![
        copy_string(&input.app_id),
        opt_text_or_empty(&input.app_slug),
        opt_text_or_empty(&input.machine_guid),
        opt_text_or_empty(&input.bios_serial),
        opt_text_or_empty(&input.motherboard_serial),
        first_mac,
        opt_text_or_empty(&input.hostname),
        opt_text_or_empty(&input.os_name),
        opt_text_or_empty(&input.os_arch),
    ];
    proof {
        assert(parts@.map_values(|p: String| p@) =~= device_key_parts(*input));
    }
    let joined = join_strings(&parts, "|");
    let digest = sha256(joined.as_str().as_bytes());
    proof {
        lemma_hex_lower(digest@);
    }
    hex_encode(digest.as_slice())
}

/// The text, or nothing when it is blank.
pub open spec fn non_empty_or_none_spec(v: Seq<char>) -> Option<Seq<char>> {
    if is_blank(v) {
        None
    } else {
        Some(v)
    }
}

pub fn non_empty_or_none(value: String) -> (r: Option<String>)
    ensures
        opt_view(r) == non_empty_or_none_spec(value@),
{
    if crate::text::is_blank_str(value.as_str()) {
        None
    } else {
        Some(value)
    }
}

/// The first text that is not blank, or the empty text.
pub open spec fn first_non_empty_spec(vs: Seq<Seq<char>>) -> Seq<char>
    decreases vs.len(),
{
    if vs.len() == 0 {
        seq![]
    } else if !is_blank(vs[0]) {
        vs[0]
    } else {
        first_non_empty_spec(vs.drop_first())
    }
}

pub fn first_non_empty(values: Vec<String>) -> (r: String)
    ensures
        r@ == first_non_empty_spec(texts(values@)),
{
    let ghost vs = texts(values@);
    let mut i: usize = 0;
    proof {
        assert(vs.skip(0) =~= vs);
    }
    while i < values.len()
        invariant
            vs == texts(values@),
            i <= values@.len(),
            first_non_empty_spec(vs) == first_non_empty_spec(vs.skip(i as int)),
        decreases values@.len() - i,
    {
        proof {
            assert(vs.skip(i as int)[0] == values@[i as int]@);
            assert(vs.skip(i as int).drop_first() =~= vs.skip(i + 1));
        }
        if !crate::text::is_blank_str(values[i].as_str()) {
            return copy_string(&values[i]);
        }
        i = i + 1;
    }
    String::new()
}

/// The last white-space separated word of a command's output.
pub open spec fn last_token_spec(v: Seq<char>) -> Seq<char> {
    if words(v).len() == 0 {
        seq![]
    } else {
        trim(words(v).last())
    }
}

pub fn parse_last_token(value: String) -> (r: String)
    ensures
        r@ == last_token_spec(value@),
{
    let v = chars_of_string(&value);
    let ws = words_chars(&v);
    proof {
        assert(ws@.len() == words(v@).len());
    }
    if ws.len() == 0 {
        String::new()
    } else {
        proof {
            assert(ws@[ws@.len() - 1]@ == words(v@).last());
        }
        string_of(&trim_chars(&ws[ws.len() - 1]))
    }
}

/// The value a line of a command's output gives after a marker: the
/// first line that holds the marker, its piece after the first `sep`
/// (empty where there is none), without double quotes where asked, and
/// trimmed.
pub open spec fn marked_value_spec(ls: Seq<Seq<char>>, marker: Seq<char>, sep: char, unquote: bool) -> Seq<char>
    decreases ls.len(),
{
    if ls.len() == 0 {
        seq![]
    } else if crate::text::contains_text(ls[0], marker) {
        let pieces = split_on(ls[0], sep);
        let piece = if pieces.len() > 1 {
            pieces[1]
        } else {
            seq![]
        };
        trim(if unquote {
            crate::money::without_char(piece, '"')
        } else {
            piece
        })
    } else {
        marked_value_spec(ls.drop_first(), marker, sep, unquote)
    }
}

pub fn marked_value(output: &str, marker: &str, sep: char, unquote: bool) -> (r: String)
    ensures
        r@ == marked_value_spec(lines_of(output@), marker@, sep, unquote),
{
    let ls = lines_chars(&chars_of(output));
    let m = chars_of(marker);
    let ghost lv = lines_of(output@);
    let mut i: usize = 0;
    proof {
        assert(lv.skip(0) =~= lv);
    }
    while i < ls.len()
        invariant
            lv == lines_of(output@),
            ls@.len() == lv.len(),
            forall|k: int| 0 <= k < ls@.len() ==> (#[trigger] ls@[k])@ == lv[k],
            i <= ls@.len(),
            m@ == marker@,
            marked_value_spec(lv, marker@, sep, unquote) == marked_value_spec(lv.skip(i as int), marker@, sep, unquote),
        decreases ls@.len() - i,
    {
        proof {
            assert(lv.skip(i as int)[0] == lv[i as int]);
            assert(lv.skip(i as int).drop_first() =~= lv.skip(i + 1));
        }
        if crate::text::contains_chars(&ls[i], &m) {
            let pieces = crate::text::split_chars(&ls[i], sep);
            let piece = if pieces.len() > 1 {
                crate::text::copy_chars(&pieces[1])
            } else {
                Vec::new()
            };
            let clean = if unquote {
                crate::money::without_char_chars(&piece, '"')
            } else {
                piece
            };
            return string_of(&trim_chars(&clean));
        }
        i = i + 1;
    }
    String::new()
}

/// The `PRETTY_NAME` of an `os-release` file: the first line that starts
/// with it, the name removed and the quotes at both ends.
pub open spec fn pretty_name_spec(ls: Seq<Seq<char>>) -> Seq<char>
    decreases ls.len(),
{
    if ls.len() == 0 {
        seq![]
    } else if crate::text::starts_with(ls[0], "PRETTY_NAME="@) {
        crate::text::trim_matches(replace(ls[0], "PRETTY_NAME="@, seq![]), '"')
    } else {
        pretty_name_spec(ls.drop_first())
    }
}

pub fn pretty_name(release: &str) -> (r: String)
    ensures
        r@ == pretty_name_spec(lines_of(release@)),
{
    proof {
        reveal_strlit("PRETTY_NAME=");
    }
    let ls = lines_chars(&chars_of(release));
    let key = chars_of("PRETTY_NAME=");
    let nothing: Vec<char> = Vec::new();
    let ghost lv = lines_of(release@);
    let mut i: usize = 0;
    proof {
        assert(lv.skip(0) =~= lv);
    }
    while i < ls.len()
        invariant
            lv == lines_of(release@),
            ls@.len() == lv.len(),
            forall|k: int| 0 <= k < ls@.len() ==> (#[trigger] ls@[k])@ == lv[k],
            i <= ls@.len(),
            key@ == "PRETTY_NAME="@,
            key@.len() == 12,
            nothing@.len() == 0,
            pretty_name_spec(lv) == pretty_name_spec(lv.skip(i as int)),
        decreases ls@.len() - i,
    {
        proof {
            assert(lv.skip(i as int)[0] == lv[i as int]);
            assert(lv.skip(i as int).drop_first() =~= lv.skip(i + 1));
        }
        if crate::text::starts_with_chars(&ls[i], &key) {
            let rest = crate::text::replace_chars(&ls[i], &key, &nothing);
            proof {
                assert(nothing@ =~= Seq::<char>::empty());
            }
            return string_of(&crate::text::trim_matches_chars(&rest, '"'));
        }
        i = i + 1;
    }
    String::new()
}

pub open spec fn is_serial_header(t: Seq<char>) -> bool {
    lower_seq(t) == "serialnumber"@ || lower_seq(t) == "uuid"@
}

/// The first trimmed line of a command's output that is neither empty nor
/// one of the headers `SerialNumber` and `UUID` (in any case).
pub open spec fn serial_line_spec(ls: Seq<Seq<char>>) -> Seq<char>
    decreases ls.len(),
{
    if ls.len() == 0 {
        seq![]
    } else if trim(ls[0]).len() > 0 && !is_serial_header(trim(ls[0])) {
        trim(ls[0])
    } else {
        serial_line_spec(ls.drop_first())
    }
}

pub fn parse_serial_lines(value: String) -> (r: String)
    ensures
        r@ == serial_line_spec(lines_of(value@)),
{
    let v = chars_of_string(&value);
    let ls = lines_chars(&v);
    let ghost lv = lines_of(value@);
    proof {
        assert(lv.skip(0) =~= lv);
    }
    let mut i: usize = 0;
    while i < ls.len()
        invariant
            lv == lines_of(value@),
            ls@.len() == lv.len(),
            forall|k: int| 0 <= k < ls@.len() ==> (#[trigger] ls@[k])@ == lv[k],
            i <= ls@.len(),
            serial_line_spec(lv) == serial_line_spec(lv.skip(i as int)),
        decreases ls@.len() - i,
    {
        proof {
            assert(lv.skip(i as int)[0] == lv[i as int]);
            assert(lv.skip(i as int).drop_first() =~= lv.skip(i + 1));
        }
        let t = trim_chars(&ls[i]);
        let low = crate::text::lower_chars(&t);
        let is_header = crate::text::chars_eq(&low, &chars_of("serialnumber")) || crate::text::chars_eq(
            &low,
            &chars_of("uuid"),
        );
        if t.len() > 0 && !is_header {
            return string_of(&t);
        }
        i = i + 1;
    }
    String::new()
}

/// The MAC addresses in a command's output: with `getmac_csv`, the first
/// comma-separated column of each line, without quotes, trimmed, kept
/// when it is not empty and holds a `-`; otherwise each trimmed non-empty
/// line.
pub open spec fn mac_of_line(line: Seq<char>, getmac_csv: bool) -> Option<Seq<char>> {
    if getmac_csv {
        let col = trim(split_on(replace(line, seq!['"'], seq![]), ',')[0]);
        if col.len() > 0 && contains_char(col, '-') {
            Some(col)
        } else {
            None
        }
    } else if trim(line).len() > 0 {
        Some(trim(line))
    } else {
        None
    }
}

pub open spec fn macs_of_lines(ls: Seq<Seq<char>>, getmac_csv: bool) -> Seq<Seq<char>>
    decreases ls.len(),
{
    if ls.len() == 0 {
        seq![]
    } else {
        match mac_of_line(ls.last(), getmac_csv) {
            Some(m) => macs_of_lines(ls.drop_last(), getmac_csv).push(m),
            None => macs_of_lines(ls.drop_last(), getmac_csv),
        }
    }
}

fn mac_of_line_exec(line: &Vec<char>, getmac_csv: bool) -> (r: Option<String>)
    ensures
        opt_view(r) == mac_of_line(line@, getmac_csv),
{
    if getmac_csv {
        let mut q: Vec<char> = Vec::new();
        q.push('"');
        let empty: Vec<char> = Vec::new();
        proof {
            assert(q@ =~= seq!['"']);
            assert(empty@ =~= Seq::<char>::empty());
        }
        let clean = crate::text::replace_chars(line, &q, &empty);
        let cols = crate::text::split_chars(&clean, ',');
        proof {
            crate::text::lemma_split_on_nonempty(clean@, ',');
        }
        let col = trim_chars(&cols[0]);
        if col.len() > 0 && contains_char_chars(&col, '-') {
            Some(string_of(&col))
        } else {
            None
        }
    } else {
        let t = trim_chars(line);
        if t.len() > 0 {
            Some(string_of(&t))
        } else {
            None
        }
    }
}

/// The MAC addresses listed in a command's output.
pub fn mac_addresses(output: &str, getmac_csv: bool) -> (r: Vec<String>)
    ensures
        texts(r@) == macs_of_lines(lines_of(output@), getmac_csv),
{
    let v = chars_of(output);
    let ls = lines_chars(&v);
    let ghost lv = lines_of(output@);
    let mut out: Vec<String> = Vec::new();
    proof {
        assert(lv.take(0) =~= Seq::<Seq<char>>::empty());
        assert(texts(out@) =~= Seq::<Seq<char>>::empty());
    }
    for i in 0..ls.len()
        invariant
            lv == lines_of(output@),
            ls@.len() == lv.len(),
            forall|k: int| 0 <= k < ls@.len() ==> (#[trigger] ls@[k])@ == lv[k],
            texts(out@) == macs_of_lines(lv.take(i as int), getmac_csv),
    {
        proof {
            assert(lv.take(i + 1).drop_last() =~= lv.take(i as int));
            assert(lv.take(i + 1).last() == ls@[i as int]@);
        }
        match mac_of_line_exec(&ls[i], getmac_csv) {
            Some(m) => {
                let ghost before = texts(out@);
                let ghost mv = m@;
                out.push(m);
                proof {
                    assert(texts(out@) =~= before.push(mv));
                }
            },
            None => {},
        }
    }
    proof {
        assert(lv.take(ls@.len() as int) =~= lv);
    }
    out
}

/// How the application runs: in a remote desktop session, from a shared
/// folder, or on a workstation.
pub open spec fn install_mode_spec(session_name: Seq<char>, exe_path: Seq<char>) -> Seq<char> {
    if crate::text::contains_text(crate::text::unicode_upper(session_name), "RDP"@) {
        "terminal-session"@
    } else if crate::text::starts_with(exe_path, "\\\\"@) || crate::text::starts_with(exe_path, "//"@) {
        "shared-server"@
    } else {
        "workstation"@
    }
}

pub fn detect_install_mode(session_name: &str, exe_path: &str) -> (r: String)
    ensures
        r@ == install_mode_spec(session_name@, exe_path@),
{
    let up = crate::text::to_uppercase_str(session_name);
    if crate::text::str_contains(up.as_str(), "RDP") {
        str_to_string("terminal-session")
    } else if crate::text::str_starts_with(exe_path, "\\\\") || crate::text::str_starts_with(
        exe_path,
        "//",
    ) {
        str_to_string("shared-server")
    } else {
        str_to_string("workstation")
    }
}

/// The name of the machine: its station name.
pub fn default_device_name(info: &DeviceCollectedInfo) -> (r: String)
    ensures
        r@ == info.station_name@,
{
    copy_string(&info.station_name)
}

pub open spec fn blank_opt(o: Option<String>) -> bool {
    opt_or_empty(o).len() == 0
}

fn opt_is_empty(o: &Option<String>) -> (r: bool)
    ensures
        r == blank_opt(*o),
{
    match o {
        Some(s) => s.as_str().is_empty(),
        None => true,
    }
}

/// The input completed with what the machine tells about itself: each
/// missing text is filled (with nothing when the machine's value is
/// blank), the device name with the station name, and a missing device
/// key is derived from the completed input.
pub open spec fn enriched_text(old: Option<String>, new: Option<String>, info: Seq<char>) -> bool {
    if blank_opt(old) {
        opt_view(new) == non_empty_or_none_spec(info)
    } else {
        opt_view(new) == opt_view(old)
    }
}

pub open spec fn enriched_plain(old: Option<String>, new: Option<String>, info: Seq<char>) -> bool {
    if blank_opt(old) {
        opt_view(new) == Some(info)
    } else {
        opt_view(new) == opt_view(old)
    }
}

/// `new` is `old` enriched with the machine's `info` (see `enrich_input`).
pub open spec fn input_enriched(old: LicenseCheckInput, new: LicenseCheckInput, info: DeviceCollectedInfo) -> bool {
    &&& enriched_plain(old.hostname, new.hostname, info.hostname@)
    &&& enriched_plain(old.computer_name, new.computer_name, info.computer_name@)
    &&& enriched_plain(old.station_name, new.station_name, info.station_name@)
    &&& enriched_plain(old.device_name, new.device_name, info.station_name@)
    &&& enriched_text(old.serial_number, new.serial_number, info.serial_number@)
    &&& enriched_text(old.machine_guid, new.machine_guid, info.machine_guid@)
    &&& enriched_text(old.bios_serial, new.bios_serial, info.bios_serial@)
    &&& enriched_text(old.motherboard_serial, new.motherboard_serial, info.motherboard_serial@)
    &&& enriched_text(old.logged_user, new.logged_user, info.logged_user@)
    &&& enriched_text(old.os_name, new.os_name, info.os_name@)
    &&& enriched_text(old.os_version, new.os_version, info.os_version@)
    &&& enriched_text(old.os_arch, new.os_arch, info.os_arch@)
    &&& enriched_text(old.domain_name, new.domain_name, info.domain_name@)
    &&& texts(new.mac_addresses@) == if old.mac_addresses@.len() == 0 {
        texts(info.mac_addresses@)
    } else {
        texts(old.mac_addresses@)
    }
    &&& enriched_text(old.install_mode, new.install_mode, info.install_mode@)
    &&& if blank_opt(old.device_key) {
        &&& opt_view(new.device_key) == Some(device_key_of(new))
        &&& new.device_key matches Some(k) && hex_key(k@)
    } else {
        opt_view(new.device_key) == opt_view(old.device_key)
    }
    &&& new.company_document == old.company_document
    &&& new.company_name == old.company_name
    &&& new.company_email == old.company_email
    &&& new.company_legal_name == old.company_legal_name
    &&& new.app_id == old.app_id
    &&& new.app_name == old.app_name
    &&& new.app_version == old.app_version
    &&& new.app_slug == old.app_slug
    &&& new.registration_file_content_b64 == old.registration_file_content_b64
    &&& new.registration_file_path == old.registration_file_path
    &&& new.registration_file_verified == old.registration_file_verified
    &&& new.allow_company_auto_create == old.allow_company_auto_create
    &&& new.allow_device_auto_create == old.allow_device_auto_create
    &&& new.allow_device_auto_update == old.allow_device_auto_update
    &&& new.requested_licenses == old.requested_licenses
    &&& new.device_identifier == old.device_identifier
    &&& new.validation_mode == old.validation_mode
    &&& new.interface_mode == old.interface_mode
    &&& new.local_license_mode == old.local_license_mode
    &&& new.metadata == old.metadata
    &&& new.login_context == old.login_context
}

/// Completes the input with what the machine tells about itself (see
/// `input_enriched`); every other field stays as it was.
pub fn enrich_input(input: &mut LicenseCheckInput, info: &DeviceCollectedInfo)
    ensures
        input_enriched(*old(input), *final(input), *info),
{
    fill_plain(&mut input.hostname, &info.hostname);
    fill_plain(&mut input.computer_name, &info.computer_name);
    fill_plain(&mut input.station_name, &info.station_name);
    fill_plain(&mut input.device_name, &info.station_name);
    fill_text(&mut input.serial_number, &info.serial_number);
    fill_text(&mut input.machine_guid, &info.machine_guid);
    fill_text(&mut input.bios_serial, &info.bios_serial);
    fill_text(&mut input.motherboard_serial, &info.motherboard_serial);
    fill_text(&mut input.logged_user, &info.logged_user);
    fill_text(&mut input.os_name, &info.os_name);
    fill_text(&mut input.os_version, &info.os_version);
    fill_text(&mut input.os_arch, &info.os_arch);
    fill_text(&mut input.domain_name, &info.domain_name);
    if input.mac_addresses.len() == 0 {
        input.mac_addresses = copy_strings(&info.mac_addresses);
    }
    fill_text(&mut input.install_mode, &info.install_mode);
    if opt_is_empty(&input.device_key) {
        let key = generate_device_key(input);
        input.device_key = Some(key);
    }
}

/// Two inputs that say the same: every text and list alike.
pub open spec fn same_input(x: LicenseCheckInput, y: LicenseCheckInput) -> bool {
    &&& opt_view(x.hostname) == opt_view(y.hostname)
    &&& opt_view(x.computer_name) == opt_view(y.computer_name)
    &&& opt_view(x.station_name) == opt_view(y.station_name)
    &&& opt_view(x.device_name) == opt_view(y.device_name)
    &&& opt_view(x.serial_number) == opt_view(y.serial_number)
    &&& opt_view(x.machine_guid) == opt_view(y.machine_guid)
    &&& opt_view(x.bios_serial) == opt_view(y.bios_serial)
    &&& opt_view(x.motherboard_serial) == opt_view(y.motherboard_serial)
    &&& opt_view(x.logged_user) == opt_view(y.logged_user)
    &&& opt_view(x.os_name) == opt_view(y.os_name)
    &&& opt_view(x.os_version) == opt_view(y.os_version)
    &&& opt_view(x.os_arch) == opt_view(y.os_arch)
    &&& opt_view(x.domain_name) == opt_view(y.domain_name)
    &&& texts(x.mac_addresses@) == texts(y.mac_addresses@)
    &&& opt_view(x.install_mode) == opt_view(y.install_mode)
    &&& opt_view(x.device_key) == opt_view(y.device_key)
    &&& x.company_document == y.company_document
    &&& x.company_name == y.company_name
    &&& x.company_email == y.company_email
    &&& x.company_legal_name == y.company_legal_name
    &&& x.app_id == y.app_id
    &&& x.app_name == y.app_name
    &&& x.app_version == y.app_version
    &&& x.app_slug == y.app_slug
    &&& x.registration_file_content_b64 == y.registration_file_content_b64
    &&& x.registration_file_path == y.registration_file_path
    &&& x.registration_file_verified == y.registration_file_verified
    &&& x.allow_company_auto_create == y.allow_company_auto_create
    &&& x.allow_device_auto_create == y.allow_device_auto_create
    &&& x.allow_device_auto_update == y.allow_device_auto_update
    &&& x.requested_licenses == y.requested_licenses
    &&& x.device_identifier == y.device_identifier
    &&& x.validation_mode == y.validation_mode
    &&& x.interface_mode == y.interface_mode
    &&& x.local_license_mode == y.local_license_mode
    &&& x.metadata == y.metadata
    &&& x.login_context == y.login_context
}

/// Enriching an input a second time with the same machine information
/// changes nothing, and the device key it ends with is never empty.
pub proof fn law_enrich_input_idempotent(
    a: LicenseCheckInput,
    b: LicenseCheckInput,
    c: LicenseCheckInput,
    info: DeviceCollectedInfo,
)
    requires
        input_enriched(a, b, info),
        input_enriched(b, c, info),
    ensures
        same_input(c, b),
        !blank_opt(b.device_key),
{
    if blank_opt(a.device_key) {
        let k = b.device_key->0;
        assert(k@.len() == 64);
    }
    if b.mac_addresses@.len() == 0 {
        assert(texts(b.mac_addresses@).len() == 0);
    }
}

fn fill_plain(o: &mut Option<String>, v: &String)
    ensures
        enriched_plain(*old(o), *final(o), v@),
{
    if opt_is_empty(o) {
        *o = Some(copy_string(v));
    }
}

fn fill_text(o: &mut Option<String>, v: &String)
    ensures
        enriched_text(*old(o), *final(o), v@),
{
    if opt_is_empty(o) {
        *o = non_empty_or_none(copy_string(v));
    }
}

pub fn copy_strings(v: &Vec<String>) -> (r: Vec<String>)
    ensures
        texts(r@) == texts(v@),
{
    let mut out: Vec<String> = Vec::new();
    for i in 0..v.len()
        invariant
            out@.len() == i,
            forall|k: int| 0 <= k < i ==> (#[trigger] out@[k])@ == v@[k]@,
    {
        out.push(copy_string(&v[i]));
    }
    proof {
        assert(texts(out@) =~= texts(v@));
    }
    out
}

// ---------------------------------------------------------------------------
// The decision
// ---------------------------------------------------------------------------

pub open spec fn source_label_spec(used_offline_cache: bool) -> Seq<char> {
    if used_offline_cache {
        "offline"@
    } else {
        "online"@
    }
}

/// Where the answer came from: `offline` or `online`.
pub fn source_label(used_offline_cache: bool) -> (r: String)
    ensures
        r@ == source_label_spec(used_offline_cache),
{
    if used_offline_cache {
        str_to_string("offline")
    } else {
        str_to_string("online")
    }
}

/// The first device whose key (empty when it has none) is `key`.
pub open spec fn first_device_with_key(ds: Seq<DeviceRecord>, key: Seq<char>) -> Option<int>
    decreases ds.len(),
{
    if ds.len() == 0 {
        None
    } else if opt_or_empty(ds[0].device_key) == key {
        Some(0)
    } else {
        match first_device_with_key(ds.drop_first(), key) {
            Some(i) => Some(i + 1),
            None => None,
        }
    }
}

pub proof fn lemma_first_device_bounds(ds: Seq<DeviceRecord>, key: Seq<char>)
    ensures
        match first_device_with_key(ds, key) {
            Some(i) => 0 <= i < ds.len(),
            None => true,
        },
    decreases ds.len(),
{
    if ds.len() > 0 {
        lemma_first_device_bounds(ds.drop_first(), key);
    }
}

pub open spec fn found_device(license: LicenseRecord, key: Seq<char>) -> Option<DeviceRecord> {
    match first_device_with_key(license.devices@, key) {
        Some(i) => Some(license.devices@[i]),
        None => None,
    }
}

/// A copy of the first device of the license with the given key.
pub fn find_device(license: &LicenseRecord, device_key: &str) -> (r: Option<DeviceRecord>)
    ensures
        same_opt_device(r, found_device(*license, device_key@)),
{
    let ghost ds = license.devices@;
    let mut i: usize = 0;
    proof {
        assert(ds.skip(0) =~= ds);
    }
    while i < license.devices.len()
        invariant
            ds == license.devices@,
            i <= ds.len(),
            forall|m: int| 0 <= m < i ==> opt_or_empty(#[trigger] ds[m].device_key) != device_key@,
            match first_device_with_key(ds, device_key@) {
                Some(j) => first_device_with_key(ds.skip(i as int), device_key@) == Some(j - i),
                None => first_device_with_key(ds.skip(i as int), device_key@) is None,
            },
        decreases ds.len() - i,
    {
        let key = opt_text_or_empty(&license.devices[i].device_key);
        proof {
            assert(ds.skip(i as int)[0] == ds[i as int]);
            assert(ds.skip(i as int).drop_first() =~= ds.skip(i + 1));
        }
        if str_eq(key.as_str(), device_key) {
            return Some(copy_device(&license.devices[i]));
        }
        i = i + 1;
    }
    None
}

/// The answer of a check that refuses.
pub fn deny(
    message: &str,
    used_offline_cache: bool,
    license: LicenseRecord,
    device: Option<DeviceRecord>,
) -> (r: LicenseDecision)
    ensures
        !r.allowed,
        r.message@ == message@,
        r.used_offline_cache == used_offline_cache,
        r.warning is None,
        r.license == Some(license),
        r.device == device,
        r.source@ == source_label_spec(used_offline_cache),
        r.company is None,
        r.application_license is None,
        r.reason_code is None,
        r.step is None,
        r.diagnostics@.len() == 0,
{
    LicenseDecision {
        allowed: false,
        message: str_to_string(message),
        used_offline_cache,
        warning: None,
        license: Some(license),
        device,
        source: source_label(used_offline_cache),
        company: None,
        application_license: None,
        reason_code: None,
        step: None,
        diagnostics: Vec::new(),
    }
}

/// Why a check refuses, or that it allows.
pub enum Verdict {
    CompanyUnknown,
    CompanyBlocked,
    Expired,
    DeviceMissing,
    DeviceBlocked,
    Allowed,
}

/// The verdict on the service's answer at time `now`: an unknown company;
/// a blocked company, an expired license, a missing or blocked device
/// when the configuration blocks on it; allowed otherwise.
pub open spec fn verdict(
    payload: LicenseApiResponse,
    input: LicenseCheckInput,
    config: LicenseConfig,
    now: (i64, u32),
) -> Verdict {
    let license = payload.license;
    let key = opt_or_empty(input.device_key);
    if payload.status == 0 {
        Verdict::CompanyUnknown
    } else if license.blocked && config.block_on_company_blocked {
        Verdict::CompanyBlocked
    } else if license.expires_at matches Some(e) && moment_before(e, now) && config.block_on_expired {
        Verdict::Expired
    } else if found_device(license, key) is None && config.block_on_device_missing {
        Verdict::DeviceMissing
    } else if found_device(license, key) matches Some(d) && d.blocked && config.block_on_device_blocked {
        Verdict::DeviceBlocked
    } else {
        Verdict::Allowed
    }
}

/// Nanoseconds in a day.
pub open spec fn day_nanos() -> int {
    86_400_000_000_000
}

/// Whole days from instant `from` to instant `to` (seconds and
/// nanoseconds), rounded toward zero.
pub open spec fn whole_days(from: (i64, u32), to: (i64, u32)) -> int {
    let d = (to.0 - from.0) * 1_000_000_000 + (to.1 - from.1);
    if d >= 0 {
        d / day_nanos()
    } else {
        -((-d) / day_nanos())
    }
}

pub fn whole_days_between(from: (i64, u32), to: (i64, u32)) -> (r: i64)
    ensures
        r == whole_days(from, to),
{
    let s: i128 = (to.0 as i128) - (from.0 as i128);
    assert(-0x1_0000_0000_0000_0000 < s < 0x1_0000_0000_0000_0000);
    assert(-0x1_0000_0000_0000_0000 * 1_000_000_000 < s * 1_000_000_000 < 0x1_0000_0000_0000_0000 * 1_000_000_000)
        by (nonlinear_arith)
        requires
            -0x1_0000_0000_0000_0000 < s < 0x1_0000_0000_0000_0000,
    ;
    let d: i128 = s * 1_000_000_000 + ((to.1 as i128) - (from.1 as i128));
    if d >= 0 {
        let q: i128 = d / 86_400_000_000_000;
        assert(0 <= q < 0x1_0000_0000_0000) by (nonlinear_arith)
            requires
                q == d / 86_400_000_000_000,
                0 <= d < 0x1_0000_0000_0000_0000 * 1_000_000_000 + 0x1_0000_0000,
        ;
        q as i64
    } else {
        let n: i128 = 0 - d;
        let q: i128 = n / 86_400_000_000_000;
        assert(0 <= q < 0x1_0000_0000_0000) by (nonlinear_arith)
            requires
                q == n / 86_400_000_000_000,
                0 < n <= 0x1_0000_0000_0000_0000 * 1_000_000_000 + 0x1_0000_0000,
        ;
        (0 - q) as i64
    }
}

pub open spec fn expiry_warning(expires: (i64, u32), now: (i64, u32), warn_days: i64) -> Option<Seq<char>> {
    let days = whole_days(now, expires);
    if days >= 0 && days <= warn_days {
        Some("A licença vence em "@ + decimal(days as nat) + " dia(s)."@)
    } else {
        None
    }
}

/// The device rename asked of the service: its id, the new name and the
/// application version.
pub struct DeviceRename {
    pub id: String,
    pub name: String,
    pub app_version: String,
}

/// The decision and what the service is asked to do on the way.
pub struct LicenseEvaluation {
    pub decision: LicenseDecision,
    pub register_company: bool,
    pub register_device: bool,
    pub rename_device: Option<DeviceRename>,
}

pub open spec fn verdict_message(v: Verdict, payload_message: Option<String>, offline: bool) -> Seq<char> {
    match v {
        Verdict::CompanyUnknown => match payload_message {
            Some(m) => m@,
            None => "empresa não cadastrada no serviço de licenciamento"@,
        },
        Verdict::CompanyBlocked => "empresa bloqueada no serviço de licenciamento"@,
        Verdict::Expired => "licença expirada"@,
        Verdict::DeviceMissing => "dispositivo não autorizado para esta licença"@,
        Verdict::DeviceBlocked => "dispositivo bloqueado para esta licença"@,
        Verdict::Allowed => if offline {
            "licença validada com cache offline"@
        } else {
            "licença validada com sucesso"@
        },
    }
}

/// The rename asked when the check allows, the device is known with an id
/// and a name, the configuration updates names, and the name differs from
/// the input's.
pub open spec fn rename_wanted(payload: LicenseApiResponse, input: LicenseCheckInput, config: LicenseConfig) -> Option<(Seq<char>, Seq<char>, Seq<char>)> {
    match found_device(payload.license, opt_or_empty(input.device_key)) {
        Some(d) => if config.auto_update_device_name && d.id is Some && d.device_name is Some
            && d.device_name.unwrap()@ != opt_or_empty(input.device_name) {
            Some((d.id.unwrap()@, opt_or_empty(input.device_name), input.app_version@))
        } else {
            None
        },
        None => None,
    }
}

pub open spec fn rename_view(r: Option<DeviceRename>) -> Option<(Seq<char>, Seq<char>, Seq<char>)> {
    match r {
        Some(x) => Some((x.id@, x.name@, x.app_version@)),
        None => None,
    }
}

/// What judging the service's answer gives (see `evaluate`).
pub open spec fn evaluation_of(
    r: LicenseEvaluation,
    payload: LicenseApiResponse,
    input: LicenseCheckInput,
    used_offline_cache: bool,
    config: LicenseConfig,
    now: (i64, u32),
) -> bool {
    let v = verdict(payload, input, config, now);
    &&& r.decision.allowed == (v == Verdict::Allowed)
    &&& r.decision.message@ == verdict_message(v, payload.message, used_offline_cache)
    &&& r.decision.used_offline_cache == used_offline_cache
    &&& r.decision.source@ == source_label_spec(used_offline_cache)
    &&& r.decision.license == Some(payload.license)
    &&& same_opt_device(
        r.decision.device,
        match v {
            Verdict::DeviceBlocked | Verdict::Allowed => found_device(
                payload.license,
                opt_or_empty(input.device_key),
            ),
            _ => None,
        },
    )
    &&& opt_view(r.decision.warning) == match (v, payload.license.expires_at) {
        (Verdict::Allowed, Some(e)) => expiry_warning(
            (e.unix_seconds, e.nanos),
            now,
            config.warn_before_expiration_in_days,
        ),
        _ => None,
    }
    &&& r.decision.company is None
    &&& r.decision.application_license is None
    &&& r.decision.reason_code is None
    &&& r.decision.step is None
    &&& r.decision.diagnostics@.len() == 0
    &&& r.register_company == (v == Verdict::CompanyUnknown
        && config.auto_register_company_on_missing)
    &&& r.register_device == (v != Verdict::CompanyUnknown && v != Verdict::CompanyBlocked
        && v != Verdict::Expired && found_device(
        payload.license,
        opt_or_empty(input.device_key),
    ) is None && config.auto_register_device_on_missing)
    &&& rename_view(r.rename_device) == if v == Verdict::Allowed {
        rename_wanted(payload, input, config)
    } else {
        None
    }
}

/// Expiry on a known, unblocked company: a license that expired before
/// `now` is refused as expired when the configuration blocks on expiry;
/// one that has not expired by `now` (or never expires), whose device is
/// listed and not blocked, is allowed.
pub proof fn law_license_expiry(
    r: LicenseEvaluation,
    payload: LicenseApiResponse,
    input: LicenseCheckInput,
    used_offline_cache: bool,
    config: LicenseConfig,
    now: (i64, u32),
)
    requires
        evaluation_of(r, payload, input, used_offline_cache, config, now),
        payload.status != 0,
        !payload.license.blocked,
    ensures
        (payload.license.expires_at matches Some(e) && (e.unix_seconds < now.0 || (e.unix_seconds == now.0
            && e.nanos < now.1)) && config.block_on_expired) ==> !r.decision.allowed && r.decision.message@
            == "licença expirada"@,
        (match payload.license.expires_at {
            Some(e) => now.0 < e.unix_seconds || (now.0 == e.unix_seconds && now.1 <= e.nanos),
            None => true,
        } && found_device(payload.license, opt_or_empty(input.device_key)) is Some && !found_device(
            payload.license,
            opt_or_empty(input.device_key),
        ).unwrap().blocked) ==> r.decision.allowed && r.decision.message@ == if used_offline_cache {
            "licença validada com cache offline"@
        } else {
            "licença validada com sucesso"@
        },
{
}

/// The refusals of a check: an unknown company (status 0) is refused with
/// the service's message (or a default one); a blocked company, a missing
/// device and a blocked device are refused with their own messages when
/// the configuration blocks on them (and no earlier reason applies); a
/// refused check never asks for a rename and carries no warning.
pub proof fn law_license_refusals(
    r: LicenseEvaluation,
    payload: LicenseApiResponse,
    input: LicenseCheckInput,
    used_offline_cache: bool,
    config: LicenseConfig,
    now: (i64, u32),
)
    requires
        evaluation_of(r, payload, input, used_offline_cache, config, now),
    ensures
        payload.status == 0 ==> !r.decision.allowed && r.decision.message@ == match payload.message {
            Some(m) => m@,
            None => "empresa não cadastrada no serviço de licenciamento"@,
        } && r.register_company == config.auto_register_company_on_missing && !r.register_device,
        payload.status != 0 && payload.license.blocked && config.block_on_company_blocked ==> !r.decision.allowed
            && r.decision.message@ == "empresa bloqueada no serviço de licenciamento"@ && !r.register_device,
        (payload.status != 0 && !payload.license.blocked && match payload.license.expires_at {
            Some(e) => now.0 < e.unix_seconds || (now.0 == e.unix_seconds && now.1 <= e.nanos),
            None => true,
        }) ==> {
            let d = found_device(payload.license, opt_or_empty(input.device_key));
            &&& (d is None && config.block_on_device_missing) ==> !r.decision.allowed && r.decision.message@
                == "dispositivo não autorizado para esta licença"@
            &&& (d is None) ==> r.register_device == config.auto_register_device_on_missing
            &&& (d is Some && d.unwrap().blocked && config.block_on_device_blocked) ==> !r.decision.allowed
                && r.decision.message@ == "dispositivo bloqueado para esta licença"@
        },
        !r.decision.allowed ==> r.rename_device is None && r.decision.warning is None,
{
}

/// Judges the service's answer for `input` at time `now` (seconds and
/// nanoseconds since the epoch).
pub fn evaluate(
    payload: LicenseApiResponse,
    input: &LicenseCheckInput,
    used_offline_cache: bool,
    config: &LicenseConfig,
    now: (i64, u32),
) -> (r: LicenseEvaluation)
    ensures
        evaluation_of(r, payload, *input, used_offline_cache, *config, now),
{
    let ghost v = verdict(payload, *input, *config, now);
    if payload.status == 0 {
        let message = match &payload.message {
            Some(m) => copy_string(m),
            None => str_to_string("empresa não cadastrada no serviço de licenciamento"),
        };
        let decision = LicenseDecision {
            allowed: false,
            message,
            used_offline_cache,
            warning: None,
            license: Some(payload.license),
            device: None,
            source: source_label(used_offline_cache),
            company: None,
            application_license: None,
            reason_code: None,
            step: None,
            diagnostics: Vec::new(),
        };
        return LicenseEvaluation {
            decision,
            register_company: config.auto_register_company_on_missing,
            register_device: false,
            rename_device: None,
        };
    }
    let license = payload.license;
    if license.blocked && config.block_on_company_blocked {
        return LicenseEvaluation {
            decision: deny(
                "empresa bloqueada no serviço de licenciamento",
                used_offline_cache,
                license,
                None,
            ),
            register_company: false,
            register_device: false,
            rename_device: None,
        };
    }
    let expired = match &license.expires_at {
        Some(e) => moment_is_before(e, now) && config.block_on_expired,
        None => false,
    };
    if expired {
        return LicenseEvaluation {
            decision: deny("licença expirada", used_offline_cache, license, None),
            register_company: false,
            register_device: false,
            rename_device: None,
        };
    }
    let device_key = opt_text_or_empty(&input.device_key);
    let device_name = opt_text_or_empty(&input.device_name);
    let device = find_device(&license, device_key.as_str());
    let register_device = device.is_none() && config.auto_register_device_on_missing;
    if device.is_none() && config.block_on_device_missing {
        return LicenseEvaluation {
            decision: deny(
                "dispositivo não autorizado para esta licença",
                used_offline_cache,
                license,
                None,
            ),
            register_company: false,
            register_device,
            rename_device: None,
        };
    }
    let mut rename_device: Option<DeviceRename> = None;
    match &device {
        Some(current) => {
            if current.blocked && config.block_on_device_blocked {
                let kept = copy_device(current);
                return LicenseEvaluation {
                    decision: deny(
                        "dispositivo bloqueado para esta licença",
                        used_offline_cache,
                        license,
                        Some(kept),
                    ),
                    register_company: false,
                    register_device,
                    rename_device: None,
                };
            }
            if config.auto_update_device_name {
                match (&current.id, &current.device_name) {
                    (Some(id), Some(name)) => {
                        if !str_eq(name.as_str(), device_name.as_str()) {
                            rename_device = Some(
                                DeviceRename {
                                    id: copy_string(id),
                                    name: copy_string(&device_name),
                                    app_version: copy_string(&input.app_version),
                                },
                            );
                        }
                    },
                    _ => {},
                }
            }
        },
        None => {},
    }
    let warning = match &license.expires_at {
        Some(e) => {
            let days_left = whole_days_between(now, (e.unix_seconds, e.nanos));
            if days_left >= 0 && days_left <= config.warn_before_expiration_in_days {
                let mut v = chars_of("A licença vence em ");
                append_chars(&mut v, &decimal_chars(days_left as u128));
                append_str(&mut v, " dia(s).");
                Some(string_of(&v))
            } else {
                None
            }
        },
        None => None,
    };
    let message = if used_offline_cache {
        str_to_string("licença validada com cache offline")
    } else {
        str_to_string("licença validada com sucesso")
    };
    LicenseEvaluation {
        decision: LicenseDecision {
            allowed: true,
            message,
            used_offline_cache,
            warning,
            license: Some(license),
            device,
            source: source_label(used_offline_cache),
            company: None,
            application_license: None,
            reason_code: None,
            step: None,
            diagnostics: Vec::new(),
        },
        register_company: false,
        register_device,
        rename_device,
    }
}

// ---------------------------------------------------------------------------
// Before and around the call
// ---------------------------------------------------------------------------

/// The input as sent: the company document reduced to its digits (an
/// error when none is left), a missing device key derived from the input,
/// a missing device name replaced by the machine's name.
pub fn prepare_check_input(input: LicenseCheckInput, default_name: &str) -> (r: Result<
    LicenseCheckInput,
    LicenseError,
>)
    ensures
        digits(input.company_document@).len() == 0 <==> r is Err,
        r is Err ==> (r matches Err(LicenseError::Invalid(m)) && m@
            == "documento da empresa não informado"@),
        r matches Ok(out) ==> {
            &&& out.company_document@ == digits(input.company_document@)
            &&& opt_view(out.device_key) == if blank_opt(input.device_key) {
                Some(device_key_of(LicenseCheckInput { company_document: out.company_document, ..input }))
            } else {
                opt_view(input.device_key)
            }
            &&& opt_view(out.device_name) == if blank_opt(input.device_name) {
                Some(default_name@)
            } else {
                opt_view(input.device_name)
            }
            &&& out.app_id@ == input.app_id@
            &&& out.app_version@ == input.app_version@
        },
{
    let mut input = input;
    input.company_document = only_digits(input.company_document.as_str());
    if input.company_document.as_str().is_empty() {
        return Err(LicenseError::Invalid(str_to_string("documento da empresa não informado")));
    }
    if opt_is_empty(&input.device_key) {
        let key = generate_device_key(&input);
        input.device_key = Some(key);
    }
    if opt_is_empty(&input.device_name) {
        input.device_name = Some(str_to_string(default_name));
    }
    Ok(input)
}

/// A cached answer of the service and when it was stored (seconds and
/// nanoseconds since the epoch).
pub struct CachedLicenseFile {
    pub cached_at: (i64, u32),
    pub payload: LicenseApiResponse,
}

/// After a failed call: the cached answer when there is one no older than
/// the configured number of days, else the error that explains why not.
pub fn offline_fallback(
    err: &LicenseError,
    cached: Option<CachedLicenseFile>,
    now: (i64, u32),
    config: &LicenseConfig,
) -> (r: Result<LicenseApiResponse, LicenseError>)
    ensures
        match cached {
            None => r matches Err(LicenseError::Invalid(m)) && m@ == "falha online ("@
                + err.message_spec() + ") e não existe cache offline para esta licença"@,
            Some(c) => if whole_days(c.cached_at, now) > config.offline_max_age_days {
                r matches Err(LicenseError::Invalid(m)) && m@ == "falha online e o cache offline expirou"@
            } else {
                r == Ok::<LicenseApiResponse, LicenseError>(c.payload)
            },
        },
{
    match cached {
        None => {
            let mut v = chars_of("falha online (");
            append_chars(&mut v, &chars_of_string(&err.message()));
            append_str(&mut v, ") e não existe cache offline para esta licença");
            Err(LicenseError::Invalid(string_of(&v)))
        },
        Some(c) => {
            let age_days = whole_days_between(c.cached_at, now);
            if age_days > config.offline_max_age_days {
                Err(LicenseError::Invalid(str_to_string("falha online e o cache offline expirou")))
            } else {
                Ok(c.payload)
            }
        },
    }
}

} // verus!
