//! The application's licensing: command-line options, settings, what is
//! sent to the licensing service, and how its decisions and local license
//! validations become the status the application runs with.
use vstd::prelude::*;

use crate::license_domain::{
    LicenseRuntimeStatus, LicenseSettings, LicenseSnapshot, LicensedCompany, LicensedDevice,
    LocalLicense, LocalLicenseValidationResult, StartupLicenseContext,
};
use crate::license_models::{
    ApplicationLicenseRecord, CompanyRecord, DeviceCollectedInfo, DeviceRecord, LicenseCheckInput,
    LicenseConfig, LicenseDecision, LicenseRecord,
};
use crate::license_service::{copy_strings, device_key_of, generate_device_key};
use crate::numbers::{parse_u32, parse_u32_chars};
use crate::sped::texts;
use crate::text::{
    append_chars, append_str, chars_of, chars_of_string, copy_string, digits, ends_with,
    join, join_strings, lower_seq, opt_or_empty, opt_string_clone, opt_view, only_digits,
    optional_string, optional_text, starts_with, str_ends_with, str_eq, str_starts_with,
    str_to_string, string_of, strip_trailing, trim, trim_str,
};

verus! {

pub open spec fn default_base_url() -> Seq<char> {
    "https://api.rest.wwsoftwares.com.br/api/v1"@
}

pub open spec fn default_app_instance() -> Seq<char> {
    "integra-desktop"@
}

pub open spec fn default_app_id() -> Seq<char> {
    "br.com.wwsoftwares.integra.desktop"@
}

pub open spec fn product_name() -> Seq<char> {
    "Integra Desktop"@
}

/// The service's base URL: the default for a blank input, else the input
/// trimmed, without trailing `/`, ending in `/api/v1`.
pub open spec fn resolve_base_url_spec(input: Seq<char>) -> Seq<char> {
    let t = trim(input);
    if t.len() == 0 {
        default_base_url()
    } else {
        let n = strip_trailing(t, '/');
        if ends_with(n, "/api/v1"@) {
            n
        } else {
            n + "/api/v1"@
        }
    }
}

pub fn resolve_base_url(input: &str) -> (r: String)
    ensures
        r@ == resolve_base_url_spec(input@),
{
    let t = trim_str(input);
    if t.as_str().is_empty() {
        return str_to_string("https://api.rest.wwsoftwares.com.br/api/v1");
    }
    let n = crate::text::strip_trailing_chars(&chars_of_string(&t), '/');
    let ns = string_of(&n);
    if str_ends_with(ns.as_str(), "/api/v1") {
        ns
    } else {
        let mut v = n;
        append_str(&mut v, "/api/v1");
        string_of(&v)
    }
}

/// The station name: the input trimmed, or the machine's name when blank.
pub open spec fn resolve_station_name_spec(input: Seq<char>, default_name: Seq<char>) -> Seq<char> {
    if trim(input).len() == 0 {
        default_name
    } else {
        trim(input)
    }
}

pub fn resolve_station_name(input: &str, default_name: &str) -> (r: String)
    ensures
        r@ == resolve_station_name_spec(input@, default_name@),
{
    let t = trim_str(input);
    if t.as_str().is_empty() {
        str_to_string(default_name)
    } else {
        t
    }
}

/// The non-blank trimmed parts, each once, in order, joined with ` | `.
pub open spec fn distinct_parts(parts: Seq<Option<Seq<char>>>) -> Seq<Seq<char>>
    decreases parts.len(),
{
    if parts.len() == 0 {
        seq![]
    } else {
        let r = distinct_parts(parts.drop_last());
        match parts.last() {
            Some(v) => if trim(v).len() > 0 && !r.contains(trim(v)) {
                r.push(trim(v))
            } else {
                r
            },
            None => r,
        }
    }
}

/// The non-blank trimmed parts, in order.
pub open spec fn present_parts(parts: Seq<Option<Seq<char>>>) -> Seq<Seq<char>>
    decreases parts.len(),
{
    if parts.len() == 0 {
        seq![]
    } else {
        let r = present_parts(parts.drop_last());
        match parts.last() {
            Some(v) => if trim(v).len() > 0 {
                r.push(trim(v))
            } else {
                r
            },
            None => r,
        }
    }
}

pub open spec fn opt_str(o: Option<&str>) -> Option<Seq<char>> {
    match o {
        Some(s) => Some(s@),
        None => None,
    }
}

fn push_part(parts: &mut Vec<String>, value: Option<&str>, distinct: bool)
    ensures
        texts(final(parts)@) == match value {
            Some(v) => if trim(v@).len() > 0 && (!distinct || !texts(old(parts)@).contains(trim(v@))) {
                texts(old(parts)@).push(trim(v@))
            } else {
                texts(old(parts)@)
            },
            None => texts(old(parts)@),
        },
{
    match value {
        Some(v) => {
            let t = trim_str(v);
            if !t.as_str().is_empty() {
                let mut seen = false;
                if distinct {
                    let mut k: usize = 0;
                    while k < parts.len()
                        invariant
                            k <= parts@.len(),
                            !seen ==> forall|m: int| 0 <= m < k ==> (#[trigger] parts@[m])@ != t@,
                            seen ==> texts(parts@).contains(t@),
                        decreases parts@.len() - k,
                    {
                        if str_eq(parts[k].as_str(), t.as_str()) {
                            proof {
                                assert(texts(parts@)[k as int] == t@);
                            }
                            seen = true;
                        }
                        k = k + 1;
                    }
                    proof {
                        if !seen {
                            assert forall|m: int| 0 <= m < texts(parts@).len() implies #[trigger] texts(
                                parts@,
                            )[m] != t@ by {
                                assert(texts(parts@)[m] == parts@[m]@);
                            }
                        }
                    }
                }
                if !seen {
                    let ghost before = texts(parts@);
                    parts.push(t);
                    proof {
                        assert(texts(parts@) =~= before.push(trim(v@)));
                    }
                }
            }
        },
        None => {},
    }
}

/// The operating system's name, version and architecture, the non-blank
/// ones trimmed and joined with ` | `.
pub fn full_os_name(os_name: Option<&str>, os_version: Option<&str>, os_arch: Option<&str>) -> (r:
    String)
    ensures
        r@ == join(present_parts(seq![opt_str(os_name), opt_str(os_version), opt_str(os_arch)]), " | "@),
{
    let ghost ps = seq![opt_str(os_name), opt_str(os_version), opt_str(os_arch)];
    let mut parts: Vec<String> = Vec::new();
    proof {
        assert(ps.take(0) =~= Seq::<Option<Seq<char>>>::empty());
        assert(texts(parts@) =~= present_parts(ps.take(0)));
        assert(ps.take(1).drop_last() =~= ps.take(0));
        assert(ps.take(2).drop_last() =~= ps.take(1));
        assert(ps.take(3) =~= ps);
        assert(ps.drop_last() =~= ps.take(2));
    }
    push_part(&mut parts, os_name, false);
    proof {
        assert(texts(parts@) == present_parts(ps.take(1)));
    }
    push_part(&mut parts, os_version, false);
    proof {
        assert(texts(parts@) == present_parts(ps.take(2)));
    }
    push_part(&mut parts, os_arch, false);
    join_strings(&parts, " | ")
}

/// The station, computer and host names, the non-blank ones trimmed and
/// each once, joined with ` | `.
pub fn full_device_name(
    station_name: Option<&str>,
    computer_name: Option<&str>,
    hostname: Option<&str>,
) -> (r: String)
    ensures
        r@ == join(
            distinct_parts(seq![opt_str(station_name), opt_str(computer_name), opt_str(hostname)]),
            " | "@,
        ),
{
    let ghost ps = seq![opt_str(station_name), opt_str(computer_name), opt_str(hostname)];
    let mut parts: Vec<String> = Vec::new();
    proof {
        assert(ps.take(0) =~= Seq::<Option<Seq<char>>>::empty());
        assert(texts(parts@) =~= distinct_parts(ps.take(0)));
        assert(ps.take(1).drop_last() =~= ps.take(0));
        assert(ps.take(2).drop_last() =~= ps.take(1));
        assert(ps.take(3) =~= ps);
        assert(ps.drop_last() =~= ps.take(2));
    }
    push_part(&mut parts, station_name, true);
    proof {
        assert(texts(parts@) == distinct_parts(ps.take(1)));
    }
    push_part(&mut parts, computer_name, true);
    proof {
        assert(texts(parts@) == distinct_parts(ps.take(2)));
    }
    push_part(&mut parts, hostname, true);
    join_strings(&parts, " | ")
}

// ---------------------------------------------------------------------------
// Command-line options
// ---------------------------------------------------------------------------

/// The name of an option argument: what follows `--`, `-` or `/`.
pub open spec fn flag_of(arg: Seq<char>) -> Option<Seq<char>> {
    let c = trim(arg);
    if starts_with(c, "--"@) {
        Some(c.skip(2))
    } else if starts_with(c, "-"@) || starts_with(c, "/"@) {
        Some(c.skip(1))
    } else {
        None
    }
}

/// The first index of `c` in `s`.
pub open spec fn index_of(s: Seq<char>, c: char) -> Option<int>
    decreases s.len(),
{
    if s.len() == 0 {
        None
    } else if s[0] == c {
        Some(0)
    } else {
        match index_of(s.drop_first(), c) {
            Some(i) => Some(i + 1),
            None => None,
        }
    }
}

pub type ArgPair = (Seq<char>, Option<Seq<char>>);

/// The option pairs read from argument `i` on: `name=value`, or a name
/// followed by its value unless the next argument starts with `--`, or a
/// name alone; names lower-cased, values trimmed and dropped when blank.
pub open spec fn arg_pairs_from(args: Seq<Seq<char>>, i: int) -> Seq<ArgPair>
    decreases args.len() - i,
{
    if i < 0 || i >= args.len() {
        seq![]
    } else {
        match flag_of(args[i]) {
            None => arg_pairs_from(args, i + 1),
            Some(raw) => if raw.len() == 0 {
                arg_pairs_from(args, i + 1)
            } else {
                match index_of(raw, '=') {
                    Some(p) => seq![
                        (lower_seq(trim(raw.take(p))), optional_text(raw.skip(p + 1))),
                    ] + arg_pairs_from(args, i + 1),
                    None => if i + 1 < args.len() && !starts_with(trim(args[i + 1]), "--"@) {
                        seq![(lower_seq(trim(raw)), optional_text(trim(args[i + 1])))]
                            + arg_pairs_from(args, i + 2)
                    } else {
                        seq![(lower_seq(trim(raw)), None)] + arg_pairs_from(args, i + 1)
                    },
                }
            },
        }
    }
}

/// The option pairs of a command line (the program name skipped).
pub open spec fn startup_arg_pairs(args: Seq<Seq<char>>) -> Seq<ArgPair> {
    arg_pairs_from(args, 1)
}

/// What an option name was last given: `Some(value)` when present.
pub open spec fn arg_lookup(pairs: Seq<ArgPair>, key: Seq<char>) -> Option<Option<Seq<char>>>
    decreases pairs.len(),
{
    if pairs.len() == 0 {
        None
    } else if pairs.last().0 == key {
        Some(pairs.last().1)
    } else {
        arg_lookup(pairs.drop_last(), key)
    }
}

pub open spec fn pairs_view(ps: Seq<(String, Option<String>)>) -> Seq<ArgPair> {
    ps.map_values(|p: (String, Option<String>)| (p.0@, opt_view(p.1)))
}

pub proof fn lemma_index_of(s: Seq<char>, c: char)
    ensures
        match index_of(s, c) {
            Some(i) => 0 <= i < s.len() && s[i] == c && forall|m: int| 0 <= m < i ==> s[m] != c,
            None => forall|m: int| 0 <= m < s.len() ==> s[m] != c,
        },
    decreases s.len(),
{
    if s.len() > 0 && s[0] != c {
        lemma_index_of(s.drop_first(), c);
        match index_of(s.drop_first(), c) {
            Some(i) => {
                assert forall|m: int| 0 <= m < i + 1 implies s[m] != c by {
                    if m > 0 {
                        assert(s[m] == s.drop_first()[m - 1]);
                    }
                }
            },
            None => {
                assert forall|m: int| 0 <= m < s.len() implies s[m] != c by {
                    if m > 0 {
                        assert(s[m] == s.drop_first()[m - 1]);
                    }
                }
            },
        }
    }
}

fn index_of_chars(v: &Vec<char>, c: char) -> (r: Option<usize>)
    ensures
        match index_of(v@, c) {
            Some(i) => r == Some(i as usize),
            None => r is None,
        },
{
    proof {
        lemma_index_of(v@, c);
    }
    let mut i: usize = 0;
    while i < v.len()
        invariant
            i <= v@.len(),
            forall|m: int| 0 <= m < i ==> v@[m] != c,
            match index_of(v@, c) {
                Some(j) => 0 <= j < v@.len() && v@[j] == c && forall|m: int| 0 <= m < j ==> v@[m] != c,
                None => forall|m: int| 0 <= m < v@.len() ==> v@[m] != c,
            },
        decreases v@.len() - i,
    {
        if v[i] == c {
            return Some(i);
        }
        i = i + 1;
    }
    None
}

fn flag_of_exec(arg: &String) -> (r: Option<Vec<char>>)
    ensures
        match r {
            Some(v) => flag_of(arg@) == Some(v@),
            None => flag_of(arg@) is None,
        },
{
    let c = crate::text::trim_chars(&chars_of_string(arg));
    proof {
        reveal_strlit("--");
        reveal_strlit("-");
        reveal_strlit("/");
    }
    if crate::text::starts_with_chars(&c, &chars_of("--")) {
        Some(crate::text::slice_chars(&c, 2, c.len()))
    } else if crate::text::starts_with_chars(&c, &chars_of("-")) || crate::text::starts_with_chars(
        &c,
        &chars_of("/"),
    ) {
        Some(crate::text::slice_chars(&c, 1, c.len()))
    } else {
        None
    }
}

fn optional_chars(v: &Vec<char>) -> (r: Option<String>)
    ensures
        opt_view(r) == optional_text(v@),
{
    optional_string(string_of(v).as_str())
}

/// The option pairs of a command line, in order; a name given twice
/// counts with its last value.
pub fn parse_startup_args(args: &Vec<String>) -> (r: Vec<(String, Option<String>)>)
    ensures
        pairs_view(r@) == startup_arg_pairs(texts(args@)),
{
    let ghost av = texts(args@);
    let mut out: Vec<(String, Option<String>)> = Vec::new();
    let mut index: usize = 1;
    proof {
        assert(pairs_view(out@) + arg_pairs_from(av, 1) =~= arg_pairs_from(av, 1));
    }
    while index < args.len()
        invariant
            av == texts(args@),
            1 <= index,
            pairs_view(out@) + arg_pairs_from(av, index as int) == startup_arg_pairs(av),
        decreases args@.len() - index,
    {
        let ghost before = pairs_view(out@);
        match flag_of_exec(&args[index]) {
            None => {
                index = index + 1;
            },
            Some(raw) => {
                if raw.len() == 0 {
                    index = index + 1;
                } else {
                    proof {
                        lemma_index_of(raw@, '=');
                    }
                    match index_of_chars(&raw, '=') {
                        Some(p) => {
                            let key = crate::text::lower_chars(
                                &crate::text::trim_chars(&crate::text::slice_chars(&raw, 0, p)),
                            );
                            let value = optional_chars(&crate::text::slice_chars(&raw, p + 1, raw.len()));
                            proof {
                                assert(raw@.subrange(0, p as int) =~= raw@.take(p as int));
                                assert(raw@.subrange(p + 1, raw@.len() as int) =~= raw@.skip(p + 1));
                            }
                            out.push((string_of(&key), value));
                            proof {
                                let pair = (lower_seq(trim(raw@.take(p as int))), optional_text(raw@.skip(p + 1)));
                                assert(pairs_view(out@) =~= before.push(pair));
                                assert(before + arg_pairs_from(av, index as int) =~= before.push(pair)
                                    + arg_pairs_from(av, index + 1));
                            }
                            index = index + 1;
                        },
                        None => {
                            let key = crate::text::lower_chars(&crate::text::trim_chars(&raw));
                            let has_value = if index + 1 < args.len() {
                                !str_starts_with(trim_str(args[index + 1].as_str()).as_str(), "--")
                            } else {
                                false
                            };
                            if has_value {
                                let value = optional_string(trim_str(args[index + 1].as_str()).as_str());
                                out.push((string_of(&key), value));
                                proof {
                                    let pair = (lower_seq(trim(raw@)), optional_text(trim(av[index + 1])));
                                    assert(trim(trim(av[index + 1])) == trim(av[index + 1])) by {
                                        crate::text::lemma_trim_idempotent(av[index + 1]);
                                    }
                                    assert(pairs_view(out@) =~= before.push(pair));
                                    assert(before + arg_pairs_from(av, index as int) =~= before.push(
                                        pair,
                                    ) + arg_pairs_from(av, index + 2));
                                }
                                index = index + 2;
                            } else {
                                out.push((string_of(&key), None));
                                proof {
                                    let pair = (lower_seq(trim(raw@)), None::<Seq<char>>);
                                    assert(pairs_view(out@) =~= before.push(pair));
                                    assert(before + arg_pairs_from(av, index as int) =~= before.push(
                                        pair,
                                    ) + arg_pairs_from(av, index + 1));
                                }
                                index = index + 1;
                            }
                        },
                    }
                }
            },
        }
    }
    proof {
        assert(pairs_view(out@) + Seq::<ArgPair>::empty() =~= pairs_view(out@));
    }
    out
}

pub open spec fn keys_view(keys: Seq<&str>) -> Seq<Seq<char>> {
    keys.map_values(|k: &str| k@)
}

/// Some of the names was given.
pub open spec fn has_any(pairs: Seq<ArgPair>, keys: Seq<Seq<char>>) -> bool {
    exists|i: int| 0 <= i < keys.len() && (#[trigger] arg_lookup(pairs, keys[i])) is Some
}

/// The value of the first name, in order, that was given with a value.
pub open spec fn string_arg(pairs: Seq<ArgPair>, keys: Seq<Seq<char>>) -> Option<Seq<char>>
    decreases keys.len(),
{
    if keys.len() == 0 {
        None
    } else {
        match arg_lookup(pairs, keys[0]) {
            Some(Some(v)) => optional_text(v),
            _ => string_arg(pairs, keys.drop_first()),
        }
    }
}

pub open spec fn u32_arg(pairs: Seq<ArgPair>, keys: Seq<Seq<char>>) -> Option<u32> {
    match string_arg(pairs, keys) {
        Some(v) => parse_u32(v),
        None => None,
    }
}

fn lookup_arg(parsed: &Vec<(String, Option<String>)>, key: &str) -> (r: Option<Option<String>>)
    ensures
        match arg_lookup(pairs_view(parsed@), key@) {
            Some(v) => r matches Some(x) && opt_view(x) == v,
            None => r is None,
        },
{
    let ghost pv = pairs_view(parsed@);
    let mut j = parsed.len();
    proof {
        assert(pv.take(j as int) =~= pv);
    }
    while j > 0
        invariant
            pv == pairs_view(parsed@),
            j <= parsed@.len(),
            arg_lookup(pv, key@) == arg_lookup(pv.take(j as int), key@),
        decreases j,
    {
        proof {
            assert(pv.take(j as int).drop_last() =~= pv.take(j - 1));
            assert(pv.take(j as int).last() == pv[j - 1]);
        }
        if str_eq(parsed[j - 1].0.as_str(), key) {
            return Some(opt_string_clone(&parsed[j - 1].1));
        }
        j = j - 1;
    }
    None
}

/// Some of the names was given, with or without a value.
pub fn has_any_flag(parsed: &Vec<(String, Option<String>)>, keys: &[&str]) -> (r: bool)
    ensures
        r == has_any(pairs_view(parsed@), keys_view(keys@)),
{
    let ghost kv = keys_view(keys@);
    for i in 0..keys.len()
        invariant
            kv == keys_view(keys@),
            forall|m: int| 0 <= m < i ==> (#[trigger] arg_lookup(pairs_view(parsed@), kv[m])) is None,
    {
        if lookup_arg(parsed, keys[i]).is_some() {
            proof {
                assert(arg_lookup(pairs_view(parsed@), kv[i as int]) is Some);
            }
            return true;
        }
    }
    false
}

/// The value of the first of the names that was given with one, trimmed.
pub fn parse_string_arg(parsed: &Vec<(String, Option<String>)>, keys: &[&str]) -> (r: Option<
    String,
>)
    ensures
        opt_view(r) == string_arg(pairs_view(parsed@), keys_view(keys@)),
{
    let ghost kv = keys_view(keys@);
    let ghost pv = pairs_view(parsed@);
    proof {
        assert(kv.skip(0) =~= kv);
    }
    let mut i: usize = 0;
    while i < keys.len()
        invariant
            kv == keys_view(keys@),
            pv == pairs_view(parsed@),
            i <= keys@.len(),
            string_arg(pv, kv) == string_arg(pv, kv.skip(i as int)),
        decreases keys@.len() - i,
    {
        proof {
            assert(kv.skip(i as int)[0] == keys@[i as int]@);
            assert(kv.skip(i as int).drop_first() =~= kv.skip(i + 1));
        }
        match lookup_arg(parsed, keys[i]) {
            Some(Some(value)) => {
                return optional_string(value.as_str());
            },
            _ => {},
        }
        i = i + 1;
    }
    None
}

/// The value of the first of the names given with one, as a number.
pub fn parse_u32_arg(parsed: &Vec<(String, Option<String>)>, keys: &[&str]) -> (r: Option<u32>)
    ensures
        r == u32_arg(pairs_view(parsed@), keys_view(keys@)),
{
    match parse_string_arg(parsed, keys) {
        Some(value) => parse_u32_chars(&chars_of_string(&value)),
        None => None,
    }
}

/// Some of the names was given with a non-blank value.
pub fn has_non_empty_arg(parsed: &Vec<(String, Option<String>)>, keys: &[&str]) -> (r: bool)
    ensures
        r == string_arg(pairs_view(parsed@), keys_view(keys@)) is Some,
{
    parse_string_arg(parsed, keys).is_some()
}

/// The licensing options of a command line (`args[0]` is the program).
pub fn parse_startup_licensing_context(args: Vec<String>) -> (r: StartupLicenseContext)
    ensures
        ({
            let ps = startup_arg_pairs(texts(args@));
            &&& texts(r.args@) == if args@.len() > 0 {
                texts(args@).skip(1)
            } else {
                seq![]
            }
            &&& r.auto_register_enabled == has_any(ps, seq!["auto-register"@, "auto-register-company"@, "auto-register-device"@])
            &&& r.auto_register_company == has_any(ps, seq!["auto-register-company"@])
            &&& r.auto_register_device == has_any(ps, seq!["auto-register-device"@])
            &&& r.requested_licenses == u32_arg(ps, seq!["licenses"@, "lic"@])
            &&& opt_view(r.company_document) == string_arg(ps, seq!["company-document"@, "document"@, "cnpj"@])
            &&& opt_view(r.company_name) == string_arg(ps, seq!["company-name"@, "empresa"@])
            &&& opt_view(r.company_email) == string_arg(ps, seq!["company-email"@, "email"@])
            &&& opt_view(r.station_name) == string_arg(ps, seq!["station-name"@, "station"@])
            &&& opt_view(r.device_name) == string_arg(ps, seq!["device-name"@])
            &&& opt_view(r.device_identifier) == string_arg(ps, seq!["device"@, "device-id"@, "device-identifier"@])
            &&& opt_view(r.validation_mode) == string_arg(ps, seq!["validation-mode"@])
            &&& opt_view(r.interface_mode) == if has_any(ps, seq!["silent"@, "headless"@, "no-ui"@]) && string_arg(ps, seq!["ui-mode"@]) is None {
            Some("silent"@)
        } else {
            string_arg(ps, seq!["ui-mode"@])
        }
            &&& r.local_license_enabled == has_any(ps, seq!["local-license"@])
            &&& r.local_license_generate == has_any(ps, seq!["local-license-generate"@])
            &&& opt_view(r.local_license_file_path) == string_arg(ps, seq!["local-license-file"@])
            &&& r.local_license_token_present == string_arg(ps, seq!["local-license-token"@]) is Some
            &&& r.developer_secret_present == string_arg(ps, seq!["local-license-secret"@]) is Some
            &&& opt_view(r.local_license_account) == string_arg(ps, seq!["local-license-account"@])
            &&& opt_view(r.local_license_issuer) == string_arg(ps, seq!["local-license-issuer"@])
            &&& r.no_ui == has_any(ps, seq!["silent"@, "headless"@, "no-ui"@])
            &&& r.licensing_disabled == has_any(ps, seq!["disable-licensing"@, "licensing-disabled"@, "no-license"@])
        }),
{
    let parsed = parse_startup_args(&args);
    let mut rest: Vec<String> = Vec::new();
    if args.len() > 0 {
        crate::sped_blocks::copy_range(&args, 1, args.len(), &mut rest);
        proof {
            assert(Seq::<Seq<char>>::empty() + texts(args@).subrange(1, args@.len() as int) =~= texts(
                args@,
            ).skip(1));
        }
    } else {
        proof {
            assert(texts(rest@) =~= Seq::<Seq<char>>::empty());
        }
    }
    let auto_register_enabled = has_any_flag(&parsed, &["auto-register", "auto-register-company", "auto-register-device"]);
    let auto_register_company = has_any_flag(&parsed, &["auto-register-company"]);
    let auto_register_device = has_any_flag(&parsed, &["auto-register-device"]);
    let requested_licenses = parse_u32_arg(&parsed, &["licenses", "lic"]);
    let company_document = parse_string_arg(&parsed, &["company-document", "document", "cnpj"]);
    let company_name = parse_string_arg(&parsed, &["company-name", "empresa"]);
    let company_email = parse_string_arg(&parsed, &["company-email", "email"]);
    let station_name = parse_string_arg(&parsed, &["station-name", "station"]);
    let device_name = parse_string_arg(&parsed, &["device-name"]);
    let device_identifier = parse_string_arg(&parsed, &["device", "device-id", "device-identifier"]);
    let validation_mode = parse_string_arg(&parsed, &["validation-mode"]);
    let interface_mode = parse_string_arg(&parsed, &["ui-mode"]);
    let local_license_enabled = has_any_flag(&parsed, &["local-license"]);
    let local_license_generate = has_any_flag(&parsed, &["local-license-generate"]);
    let local_license_file_path = parse_string_arg(&parsed, &["local-license-file"]);
    let local_license_token_present = has_non_empty_arg(&parsed, &["local-license-token"]);
    let developer_secret_present = has_non_empty_arg(&parsed, &["local-license-secret"]);
    let local_license_account = parse_string_arg(&parsed, &["local-license-account"]);
    let local_license_issuer = parse_string_arg(&parsed, &["local-license-issuer"]);
    let no_ui = has_any_flag(&parsed, &["silent", "headless", "no-ui"]);
    let licensing_disabled = has_any_flag(&parsed, &["disable-licensing", "licensing-disabled", "no-license"]);
    proof {
        assert(keys_view(["auto-register", "auto-register-company", "auto-register-device"]@) =~= seq!["auto-register"@, "auto-register-company"@, "auto-register-device"@]);
        assert(keys_view(["auto-register-company"]@) =~= seq!["auto-register-company"@]);
        assert(keys_view(["auto-register-device"]@) =~= seq!["auto-register-device"@]);
        assert(keys_view(["licenses", "lic"]@) =~= seq!["licenses"@, "lic"@]);
        assert(keys_view(["company-document", "document", "cnpj"]@) =~= seq!["company-document"@, "document"@, "cnpj"@]);
        assert(keys_view(["company-name", "empresa"]@) =~= seq!["company-name"@, "empresa"@]);
        assert(keys_view(["company-email", "email"]@) =~= seq!["company-email"@, "email"@]);
        assert(keys_view(["station-name", "station"]@) =~= seq!["station-name"@, "station"@]);
        assert(keys_view(["device-name"]@) =~= seq!["device-name"@]);
        assert(keys_view(["device", "device-id", "device-identifier"]@) =~= seq!["device"@, "device-id"@, "device-identifier"@]);
        assert(keys_view(["validation-mode"]@) =~= seq!["validation-mode"@]);
        assert(keys_view(["ui-mode"]@) =~= seq!["ui-mode"@]);
        assert(keys_view(["local-license"]@) =~= seq!["local-license"@]);
        assert(keys_view(["local-license-generate"]@) =~= seq!["local-license-generate"@]);
        assert(keys_view(["local-license-file"]@) =~= seq!["local-license-file"@]);
        assert(keys_view(["local-license-token"]@) =~= seq!["local-license-token"@]);
        assert(keys_view(["local-license-secret"]@) =~= seq!["local-license-secret"@]);
        assert(keys_view(["local-license-account"]@) =~= seq!["local-license-account"@]);
        assert(keys_view(["local-license-issuer"]@) =~= seq!["local-license-issuer"@]);
        assert(keys_view(["silent", "headless", "no-ui"]@) =~= seq!["silent"@, "headless"@, "no-ui"@]);
        assert(keys_view(["disable-licensing", "licensing-disabled", "no-license"]@) =~= seq!["disable-licensing"@, "licensing-disabled"@, "no-license"@]);
    }
    let interface_mode = if no_ui && interface_mode.is_none() {
        Some(str_to_string("silent"))
    } else {
        interface_mode
    };
    StartupLicenseContext {
        auto_register_enabled,
        auto_register_company,
        auto_register_device,
        requested_licenses,
        company_name,
        company_document,
        company_email,
        station_name,
        device_name,
        device_identifier,
        validation_mode,
        interface_mode,
        local_license_enabled,
        local_license_generate,
        local_license_file_path,
        local_license_token_present,
        developer_secret_present,
        licensing_disabled,
        local_license_account,
        local_license_issuer,
        no_ui,
        args: rest,
    }
}

/// Some licensing option was given on the command line.
pub open spec fn has_overrides(st: StartupLicenseContext) -> bool {
    st.licensing_disabled || st.auto_register_enabled || st.auto_register_company
        || st.auto_register_device || st.requested_licenses is Some || st.company_name is Some
        || st.company_document is Some || st.company_email is Some || st.station_name is Some
        || st.device_name is Some || st.device_identifier is Some || st.validation_mode is Some
        || st.interface_mode is Some || st.local_license_enabled || st.local_license_generate
        || st.local_license_file_path is Some || st.local_license_token_present
        || st.developer_secret_present || st.local_license_account is Some
        || st.local_license_issuer is Some || st.no_ui
}

pub fn startup_has_runtime_overrides(startup: &StartupLicenseContext) -> (r: bool)
    ensures
        r == has_overrides(*startup),
{
    startup.licensing_disabled || startup.auto_register_enabled || startup.auto_register_company
        || startup.auto_register_device || startup.requested_licenses.is_some()
        || startup.company_name.is_some() || startup.company_document.is_some()
        || startup.company_email.is_some() || startup.station_name.is_some()
        || startup.device_name.is_some() || startup.device_identifier.is_some()
        || startup.validation_mode.is_some() || startup.interface_mode.is_some()
        || startup.local_license_enabled || startup.local_license_generate
        || startup.local_license_file_path.is_some() || startup.local_license_token_present
        || startup.developer_secret_present || startup.local_license_account.is_some()
        || startup.local_license_issuer.is_some() || startup.no_ui
}

pub open spec fn or_else_text(o: Option<String>, d: Seq<char>) -> Seq<char> {
    match o {
        Some(v) => v@,
        None => d,
    }
}

/// The settings with the command-line options applied: given texts
/// replace the settings' (the station name from `station-name`, else
/// `device-name`), any auto-register option turns machine registration
/// on, and disabling licensing disables it.
pub open spec fn overridden(s: LicenseSettings, r: LicenseSettings, st: StartupLicenseContext) -> bool {
    &&& r.company_name@ == or_else_text(st.company_name, s.company_name@)
    &&& r.company_document@ == or_else_text(st.company_document, s.company_document@)
    &&& r.company_email@ == or_else_text(st.company_email, s.company_email@)
    &&& r.station_name@ == or_else_text(
        st.station_name,
        or_else_text(st.device_name, s.station_name@),
    )
    &&& r.auto_register_requested_licenses == match st.requested_licenses {
        Some(n) => Some(n),
        None => s.auto_register_requested_licenses,
    }
    &&& r.auto_register_validation_mode@ == or_else_text(
        st.validation_mode,
        s.auto_register_validation_mode@,
    )
    &&& r.auto_register_interface_mode@ == or_else_text(st.interface_mode, s.auto_register_interface_mode@)
    &&& r.auto_register_device_identifier@ == or_else_text(
        st.device_identifier,
        s.auto_register_device_identifier@,
    )
    &&& r.auto_register_machine == (s.auto_register_machine || st.auto_register_enabled
        || st.auto_register_company || st.auto_register_device)
    &&& r.licensing_disabled == (s.licensing_disabled || st.licensing_disabled)
    &&& r.service_url@ == s.service_url@
    &&& r.machine_key@ == s.machine_key@
    &&& r.app_instance@ == s.app_instance@
}

fn replace_if_some(target: &mut String, value: &Option<String>)
    ensures
        final(target)@ == or_else_text(*value, old(target)@),
{
    match value {
        Some(v) => {
            *target = copy_string(v);
        },
        None => {},
    }
}

pub fn apply_startup_overrides(settings: LicenseSettings, startup: &StartupLicenseContext) -> (r:
    LicenseSettings)
    ensures
        overridden(settings, r, *startup),
{
    let mut settings = settings;
    replace_if_some(&mut settings.company_name, &startup.company_name);
    replace_if_some(&mut settings.company_document, &startup.company_document);
    replace_if_some(&mut settings.company_email, &startup.company_email);
    if startup.station_name.is_some() {
        replace_if_some(&mut settings.station_name, &startup.station_name);
    } else {
        replace_if_some(&mut settings.station_name, &startup.device_name);
    }
    match startup.requested_licenses {
        Some(n) => {
            settings.auto_register_requested_licenses = Some(n);
        },
        None => {},
    }
    replace_if_some(&mut settings.auto_register_validation_mode, &startup.validation_mode);
    replace_if_some(&mut settings.auto_register_interface_mode, &startup.interface_mode);
    replace_if_some(&mut settings.auto_register_device_identifier, &startup.device_identifier);
    if startup.auto_register_enabled || startup.auto_register_company || startup.auto_register_device {
        settings.auto_register_machine = true;
    }
    if startup.licensing_disabled {
        settings.licensing_disabled = true;
    }
    settings
}

/// The metadata sent with a check, in key order.
pub open spec fn input_metadata(
    settings: LicenseSettings,
    display_name: Seq<char>,
    validation_mode: Option<Seq<char>>,
    interface_mode: Option<Seq<char>>,
    device_identifier: Option<Seq<char>>,
) -> Seq<(Seq<char>, Seq<char>)> {
    seq![
        ("app_instance"@, settings.app_instance@),
        ("app_product_name"@, product_name()),
        ("device_display_name"@, display_name),
        ("device_identifier"@, match device_identifier {
            Some(v) => v,
            None => seq![],
        }),
        ("interface_mode"@, match interface_mode {
            Some(v) => v,
            None => "interactive"@,
        }),
        ("requested_licenses"@, match settings.auto_register_requested_licenses {
            Some(n) => crate::text::decimal(n as nat),
            None => seq![],
        }),
        ("startup_mode"@, "disabled"@),
        ("validation_mode"@, match validation_mode {
            Some(v) => v,
            None => "standard"@,
        }),
    ]
}

pub open spec fn display_name_of(device: DeviceCollectedInfo) -> Seq<char> {
    join(
        distinct_parts(
            seq![Some(device.station_name@), Some(device.computer_name@), Some(device.hostname@)],
        ),
        " | "@,
    )
}

/// What is sent to the service for these settings and this machine.
pub open spec fn license_input_ok(
    r: LicenseCheckInput,
    settings: LicenseSettings,
    device: DeviceCollectedInfo,
    app_version: Seq<char>,
    default_station: Seq<char>,
) -> bool {
    &&& r.company_document@ == digits(settings.company_document@)
    &&& opt_view(r.company_name) == optional_text(settings.company_name@)
    &&& opt_view(r.company_email) == optional_text(settings.company_email@)
    &&& opt_view(r.company_legal_name) == optional_text(settings.company_name@)
    &&& r.app_id@ == default_app_id()
    &&& r.app_name@ == product_name()
    &&& r.app_version@ == app_version
    &&& opt_view(r.app_slug) == Some(settings.app_instance@)
    &&& opt_view(r.device_name) == Some(display_name_of(device))
    &&& opt_view(r.station_name) == Some(resolve_station_name_spec(settings.station_name@, default_station))
    &&& opt_view(r.hostname) == optional_text(device.hostname@)
    &&& opt_view(r.computer_name) == optional_text(device.computer_name@)
    &&& opt_view(r.serial_number) == optional_text(device.serial_number@)
    &&& opt_view(r.machine_guid) == optional_text(device.machine_guid@)
    &&& opt_view(r.bios_serial) == optional_text(device.bios_serial@)
    &&& opt_view(r.motherboard_serial) == optional_text(device.motherboard_serial@)
    &&& opt_view(r.logged_user) == optional_text(device.logged_user@)
    &&& opt_view(r.os_name) == optional_text(device.os_name@)
    &&& opt_view(r.os_version) == optional_text(device.os_version@)
    &&& opt_view(r.os_arch) == optional_text(device.os_arch@)
    &&& opt_view(r.domain_name) == optional_text(device.domain_name@)
    &&& texts(r.mac_addresses@) == texts(device.mac_addresses@)
    &&& opt_view(r.install_mode) == optional_text(device.install_mode@)
    &&& r.registration_file_content_b64 is None
    &&& r.registration_file_path is None
    &&& r.registration_file_verified is None
    &&& r.allow_company_auto_create == Some(settings.auto_register_machine)
    &&& r.allow_device_auto_create == Some(settings.auto_register_machine)
    &&& r.allow_device_auto_update == Some(true)
    &&& r.requested_licenses == settings.auto_register_requested_licenses
    &&& opt_view(r.device_identifier) == optional_text(settings.auto_register_device_identifier@)
    &&& opt_view(r.validation_mode) == optional_text(settings.auto_register_validation_mode@)
    &&& opt_view(r.interface_mode) == optional_text(settings.auto_register_interface_mode@)
    &&& r.local_license_mode is None
    &&& r.metadata@.map_values(|p: (String, String)| (p.0@, p.1@)) == input_metadata(
        settings,
        display_name_of(device),
        optional_text(settings.auto_register_validation_mode@),
        optional_text(settings.auto_register_interface_mode@),
        optional_text(settings.auto_register_device_identifier@),
    )
    &&& !r.login_context
    &&& opt_view(r.device_key) == match optional_text(settings.machine_key@) {
        Some(k) => Some(k),
        None => Some(device_key_of(LicenseCheckInput { device_key: None, ..r })),
    }
}

fn text_or(o: &Option<String>, d: &str) -> (r: String)
    ensures
        r@ == match *o {
            Some(v) => v@,
            None => d@,
        },
{
    match o {
        Some(v) => copy_string(v),
        None => str_to_string(d),
    }
}

/// Builds what is sent to the service; `default_station` is the machine's
/// name, used when the settings give no station.
pub fn build_license_input(
    settings: &LicenseSettings,
    device: &DeviceCollectedInfo,
    app_version: &str,
    default_station: &str,
) -> (r: LicenseCheckInput)
    ensures
        license_input_ok(r, *settings, *device, app_version@, default_station@),
        r.device_key matches Some(k) && k@.len() > 0,
        optional_text(settings.machine_key@) is None ==> (r.device_key matches Some(k)
            && crate::license_service::hex_key(k@)),
{
    let requested_licenses = settings.auto_register_requested_licenses;
    let validation_mode = optional_string(settings.auto_register_validation_mode.as_str());
    let interface_mode = optional_string(settings.auto_register_interface_mode.as_str());
    let device_identifier = optional_string(settings.auto_register_device_identifier.as_str());
    let display = full_device_name(
        Some(device.station_name.as_str()),
        Some(device.computer_name.as_str()),
        Some(device.hostname.as_str()),
    );
    let requested_text = match requested_licenses {
        Some(n) => crate::text::decimal_string(n as u64),
        None => String::new(),
    };
    let metadata = vec![
        (str_to_string("app_instance"), copy_string(&settings.app_instance)),
        (str_to_string("app_product_name"), str_to_string("Integra Desktop")),
        (str_to_string("device_display_name"), copy_string(&display)),
        (str_to_string("device_identifier"), text_or(&device_identifier, "")),
        (str_to_string("interface_mode"), text_or(&interface_mode, "interactive")),
        (str_to_string("requested_licenses"), requested_text),
        (str_to_string("startup_mode"), str_to_string("disabled")),
        (str_to_string("validation_mode"), text_or(&validation_mode, "standard")),
    ];
    proof {
        reveal_strlit("");
        let mv = metadata@.map_values(|p: (String, String)| (p.0@, p.1@));
        let ex = input_metadata(
            *settings,
            display@,
            optional_text(settings.auto_register_validation_mode@),
            optional_text(settings.auto_register_interface_mode@),
            optional_text(settings.auto_register_device_identifier@),
        );
        assert(mv[3] == ex[3]);
        assert(mv =~= ex);
    }
    let mut input = LicenseCheckInput {
        company_document: only_digits(settings.company_document.as_str()),
        company_name: optional_string(settings.company_name.as_str()),
        company_email: optional_string(settings.company_email.as_str()),
        company_legal_name: optional_string(settings.company_name.as_str()),
        app_id: str_to_string("br.com.wwsoftwares.integra.desktop"),
        app_name: str_to_string("Integra Desktop"),
        app_version: str_to_string(app_version),
        app_slug: Some(copy_string(&settings.app_instance)),
        device_key: optional_string(settings.machine_key.as_str()),
        device_name: Some(display),
        station_name: Some(resolve_station_name(settings.station_name.as_str(), default_station)),
        hostname: optional_string(device.hostname.as_str()),
        computer_name: optional_string(device.computer_name.as_str()),
        serial_number: optional_string(device.serial_number.as_str()),
        machine_guid: optional_string(device.machine_guid.as_str()),
        bios_serial: optional_string(device.bios_serial.as_str()),
        motherboard_serial: optional_string(device.motherboard_serial.as_str()),
        logged_user: optional_string(device.logged_user.as_str()),
        os_name: optional_string(device.os_name.as_str()),
        os_version: optional_string(device.os_version.as_str()),
        os_arch: optional_string(device.os_arch.as_str()),
        domain_name: optional_string(device.domain_name.as_str()),
        mac_addresses: copy_strings(&device.mac_addresses),
        install_mode: optional_string(device.install_mode.as_str()),
        registration_file_content_b64: None,
        registration_file_path: None,
        registration_file_verified: None,
        allow_company_auto_create: Some(settings.auto_register_machine),
        allow_device_auto_create: Some(settings.auto_register_machine),
        allow_device_auto_update: Some(true),
        requested_licenses,
        device_identifier,
        validation_mode,
        interface_mode,
        local_license_mode: None,
        metadata,
        login_context: false,
    };
    let no_key = match &input.device_key {
        Some(k) => k.as_str().is_empty(),
        None => true,
    };
    if no_key {
        let key = generate_device_key(&input);
        input.device_key = Some(key);
    }
    input
}

pub open spec fn text_or_empty(o: Option<Seq<char>>) -> Seq<char> {
    match o {
        Some(v) => v,
        None => seq![],
    }
}

/// The key of this machine for an application instance: the device key
/// of what would be sent for blank settings of that instance.
pub open spec fn machine_fingerprint(app_instance: Seq<char>, device: DeviceCollectedInfo) -> Seq<char> {
    crate::license_service::hex_lower(
        crate::license_service::sha256_digest(
            vstd::utf8::encode_utf8(
                join(
                    seq![
                        default_app_id(),
                        app_instance,
                        text_or_empty(optional_text(device.machine_guid@)),
                        text_or_empty(optional_text(device.bios_serial@)),
                        text_or_empty(optional_text(device.motherboard_serial@)),
                        if device.mac_addresses@.len() > 0 {
                            device.mac_addresses@[0]@
                        } else {
                            seq![]
                        },
                        text_or_empty(optional_text(device.hostname@)),
                        text_or_empty(optional_text(device.os_name@)),
                        text_or_empty(optional_text(device.os_arch@)),
                    ],
                    "|"@,
                ),
            ),
        ),
    )
}

pub fn generate_machine_fingerprint(
    app_instance: &str,
    device: &DeviceCollectedInfo,
    app_version: &str,
    default_station: &str,
) -> (r: String)
    ensures
        r@ == machine_fingerprint(app_instance@, *device),
        crate::license_service::hex_key(r@),
{
    let mut settings = LicenseSettings::default();
    settings.app_instance = str_to_string(app_instance);
    let input = build_license_input(&settings, device, app_version, default_station);
    proof {
        assert(texts(input.mac_addresses@) == texts(device.mac_addresses@));
        if device.mac_addresses@.len() > 0 {
            assert(texts(input.mac_addresses@)[0] == input.mac_addresses@[0]@);
            assert(texts(device.mac_addresses@)[0] == device.mac_addresses@[0]@);
        }
        assert(crate::license_service::device_key_parts(input) =~= seq![
            default_app_id(),
            app_instance@,
            text_or_empty(optional_text(device.machine_guid@)),
            text_or_empty(optional_text(device.bios_serial@)),
            text_or_empty(optional_text(device.motherboard_serial@)),
            if device.mac_addresses@.len() > 0 {
                device.mac_addresses@[0]@
            } else {
                seq![]
            },
            text_or_empty(optional_text(device.hostname@)),
            text_or_empty(optional_text(device.os_name@)),
            text_or_empty(optional_text(device.os_arch@)),
        ]);
    }
    generate_device_key(&input)
}

// ---------------------------------------------------------------------------
// Settings
// ---------------------------------------------------------------------------

/// The settings made usable: base URL resolved, default instance, a
/// machine key (this machine's fingerprint when blank), the document's
/// digits, trimmed texts, and default validation and interface modes.
pub open spec fn normalized(s: LicenseSettings, r: LicenseSettings, device: DeviceCollectedInfo) -> bool {
    let instance = if trim(s.app_instance@).len() == 0 {
        default_app_instance()
    } else {
        s.app_instance@
    };
    &&& r.service_url@ == resolve_base_url_spec(s.service_url@)
    &&& r.app_instance@ == instance
    &&& r.machine_key@ == if trim(s.machine_key@).len() == 0 {
        machine_fingerprint(instance, device)
    } else {
        s.machine_key@
    }
    &&& r.company_document@ == digits(s.company_document@)
    &&& r.company_name@ == trim(s.company_name@)
    &&& r.company_email@ == trim(s.company_email@)
    &&& r.station_name@ == trim(s.station_name@)
    &&& r.auto_register_validation_mode@ == if trim(s.auto_register_validation_mode@).len() == 0 {
        "standard"@
    } else {
        trim(s.auto_register_validation_mode@)
    }
    &&& r.auto_register_interface_mode@ == if trim(s.auto_register_interface_mode@).len() == 0 {
        "interactive"@
    } else {
        trim(s.auto_register_interface_mode@)
    }
    &&& r.auto_register_device_identifier@ == trim(s.auto_register_device_identifier@)
    &&& r.auto_register_machine == s.auto_register_machine
    &&& r.auto_register_requested_licenses == s.auto_register_requested_licenses
    &&& r.licensing_disabled == s.licensing_disabled
}

fn trimmed_or(value: &String, default: &str) -> (r: String)
    ensures
        r@ == if trim(value@).len() == 0 {
            default@
        } else {
            trim(value@)
        },
{
    let t = trim_str(value.as_str());
    if t.as_str().is_empty() {
        str_to_string(default)
    } else {
        t
    }
}

pub fn normalize_license_settings(
    settings: LicenseSettings,
    device: &DeviceCollectedInfo,
    app_version: &str,
    default_station: &str,
) -> (r: LicenseSettings)
    ensures
        normalized(settings, r, *device),
        trim(r.machine_key@).len() > 0,
{
    let mut next = settings;
    next.service_url = resolve_base_url(next.service_url.as_str());
    if crate::text::is_blank_str(next.app_instance.as_str()) {
        next.app_instance = str_to_string("integra-desktop");
    }
    if crate::text::is_blank_str(next.machine_key.as_str()) {
        next.machine_key = generate_machine_fingerprint(
            next.app_instance.as_str(),
            device,
            app_version,
            default_station,
        );
        proof {
            lemma_hex_key_trimmed(next.machine_key@);
        }
    }
    next.company_document = only_digits(next.company_document.as_str());
    next.company_name = trim_str(next.company_name.as_str());
    next.company_email = trim_str(next.company_email.as_str());
    next.station_name = trim_str(next.station_name.as_str());
    next.auto_register_validation_mode = trimmed_or(&next.auto_register_validation_mode, "standard");
    next.auto_register_interface_mode = trimmed_or(&next.auto_register_interface_mode, "interactive");
    next.auto_register_device_identifier = trim_str(next.auto_register_device_identifier.as_str());
    next
}

proof fn lemma_hex_key_trimmed(k: Seq<char>)
    requires
        crate::license_service::hex_key(k),
    ensures
        trim(k).len() > 0,
{
    assert(crate::license_service::is_hex_lower(k[0]));
    assert(crate::license_service::is_hex_lower(k[k.len() - 1]));
    crate::text::lemma_trim_solid(k);
}

/// Where trailing `/` stop: a prefix of the text, that does not end in `/`.
proof fn lemma_strip_trailing_prefix(s: Seq<char>, c: char)
    ensures
        strip_trailing(s, c).len() <= s.len(),
        strip_trailing(s, c) == s.take(strip_trailing(s, c).len() as int),
        strip_trailing(s, c).len() > 0 ==> strip_trailing(s, c).last() != c,
    decreases s.len(),
{
    if s.len() > 0 && s.last() == c {
        lemma_strip_trailing_prefix(s.drop_last(), c);
        let t = strip_trailing(s.drop_last(), c);
        assert(s.drop_last().take(t.len() as int) =~= s.take(t.len() as int));
    } else {
        assert(s.take(s.len() as int) =~= s);
    }
}

/// A resolved base URL resolves to itself.
proof fn lemma_resolve_base_url_stable(input: Seq<char>)
    ensures
        resolve_base_url_spec(resolve_base_url_spec(input)) == resolve_base_url_spec(input),
{
    let r = resolve_base_url_spec(input);
    let t = trim(input);
    reveal_strlit("/api/v1");
    reveal_strlit("https://api.rest.wwsoftwares.com.br/api/v1");
    if t.len() == 0 {
        assert(r[0] == 'h');
        assert(r.last() == '1');
        assert(r.skip(r.len() - 7) =~= "/api/v1"@);
    } else {
        crate::text::lemma_trim_start_first(input);
        crate::text::lemma_trim_end_prefix(crate::text::trim_start(input));
        assert(t[0] == crate::text::trim_start(input)[0]);
        let n = strip_trailing(t, '/');
        lemma_strip_trailing_prefix(t, '/');
        if n.len() > 0 {
            assert(n[0] == t[0]);
        }
        if ends_with(n, "/api/v1"@) {
            assert(r == n);
            assert(r.last() == n.skip(n.len() - 7)[6]);
        } else {
            assert(r == n + "/api/v1"@);
            if n.len() == 0 {
                assert(r[0] == '/');
            } else {
                assert(r[0] == n[0]);
            }
            assert(r.last() == '1');
            assert(r.skip(r.len() - 7) =~= "/api/v1"@);
        }
    }
    assert(r.len() > 0);
    assert(!crate::text::is_ws(r.last()));
    crate::text::lemma_trim_solid(r);
    assert(strip_trailing(r, '/') == r);
    assert(ends_with(r, "/api/v1"@));
}

/// Normalizing normalized settings changes nothing (for the same machine):
/// every field stays as it is.
pub proof fn law_normalize_settings_stable(
    s: LicenseSettings,
    once: LicenseSettings,
    twice: LicenseSettings,
    device: DeviceCollectedInfo,
)
    requires
        normalized(s, once, device),
        trim(once.machine_key@).len() > 0,
        normalized(once, twice, device),
    ensures
        twice.service_url@ == once.service_url@,
        twice.app_instance@ == once.app_instance@,
        twice.machine_key@ == once.machine_key@,
        twice.company_document@ == once.company_document@,
        twice.company_name@ == once.company_name@,
        twice.company_email@ == once.company_email@,
        twice.station_name@ == once.station_name@,
        twice.auto_register_validation_mode@ == once.auto_register_validation_mode@,
        twice.auto_register_interface_mode@ == once.auto_register_interface_mode@,
        twice.auto_register_device_identifier@ == once.auto_register_device_identifier@,
        twice.auto_register_machine == once.auto_register_machine,
        twice.auto_register_requested_licenses == once.auto_register_requested_licenses,
        twice.licensing_disabled == once.licensing_disabled,
{
    lemma_resolve_base_url_stable(s.service_url@);
    reveal_strlit("integra-desktop");
    reveal_strlit("standard");
    reveal_strlit("interactive");
    if trim(s.app_instance@).len() == 0 {
        crate::text::lemma_trim_solid(default_app_instance());
    }
    crate::text::lemma_digits_len(s.company_document@);
    crate::text::lemma_digits_of_digits(once.company_document@);
    crate::text::lemma_trim_idempotent(s.company_name@);
    crate::text::lemma_trim_idempotent(s.company_email@);
    crate::text::lemma_trim_idempotent(s.station_name@);
    crate::text::lemma_trim_idempotent(s.auto_register_validation_mode@);
    crate::text::lemma_trim_idempotent(s.auto_register_interface_mode@);
    crate::text::lemma_trim_idempotent(s.auto_register_device_identifier@);
    crate::text::lemma_trim_solid("standard"@);
    crate::text::lemma_trim_solid("interactive"@);
}

/// What the command line and the environment give to the service's
/// configuration: each variable's value when it is set.
pub struct LicenseEnvironment {
    pub api_token: Option<String>,
    pub resolve_endpoint: Option<String>,
    pub status_endpoint: Option<String>,
    pub register_company_endpoint: Option<String>,
    pub register_device_endpoint: Option<String>,
    pub update_device_endpoint: Option<String>,
    pub registration_file_names: Option<String>,
    pub registration_file_extra_paths: Option<String>,
    pub registration_public_key_base64: Option<String>,
}

/// The items of a list written with `;` or `,` between them, trimmed,
/// the empty ones left out.
pub open spec fn list_items(raw: Seq<char>) -> Seq<Seq<char>> {
    crate::exporters::non_blank_pieces(
        crate::sped_merge::concat_groups(
            crate::text::split_on(raw, ';').map_values(|chunk: Seq<char>| crate::text::split_on(chunk, ',')),
        ).map_values(|item: Seq<char>| trim(item)),
    )
}

fn list_items_of(raw: &str) -> (r: Vec<String>)
    ensures
        texts(r@) == list_items(raw@),
{
    let chunks = crate::text::split_str(raw, ';');
    let ghost cv = crate::text::split_on(raw@, ';');
    let ghost groups = cv.map_values(|chunk: Seq<char>| crate::text::split_on(chunk, ','));
    let mut items: Vec<String> = Vec::new();
    proof {
        assert(groups.take(0) =~= Seq::<Seq<Seq<char>>>::empty());
        assert(texts(items@) =~= crate::sped_merge::concat_groups(groups.take(0)).map_values(
            |item: Seq<char>| trim(item),
        ));
    }
    for i in 0..chunks.len()
        invariant
            chunks@.len() == cv.len(),
            forall|k: int| 0 <= k < chunks@.len() ==> (#[trigger] chunks@[k])@ == cv[k],
            groups == cv.map_values(|chunk: Seq<char>| crate::text::split_on(chunk, ',')),
            texts(items@) == crate::sped_merge::concat_groups(groups.take(i as int)).map_values(
                |item: Seq<char>| trim(item),
            ),
    {
        let parts = crate::text::split_str(chunks[i].as_str(), ',');
        let ghost before = texts(items@);
        let ghost pv = crate::text::split_on(chunks@[i as int]@, ',');
        for j in 0..parts.len()
            invariant
                parts@.len() == pv.len(),
                forall|k: int| 0 <= k < parts@.len() ==> (#[trigger] parts@[k])@ == pv[k],
                texts(items@) == before + pv.take(j as int).map_values(|item: Seq<char>| trim(item)),
        {
            let ghost b2 = texts(items@);
            items.push(trim_str(parts[j].as_str()));
            proof {
                assert(texts(items@) =~= b2.push(trim(pv[j as int])));
                assert(pv.take(j + 1).map_values(|item: Seq<char>| trim(item)) =~= pv.take(
                    j as int,
                ).map_values(|item: Seq<char>| trim(item)).push(trim(pv[j as int])));
            }
        }
        proof {
            assert(pv.take(parts@.len() as int) =~= pv);
            assert(groups.take(i + 1).drop_last() =~= groups.take(i as int));
            assert(groups.take(i + 1).last() == pv);
            let f = |item: Seq<char>| trim(item);
            let a = crate::sped_merge::concat_groups(groups.take(i as int));
            assert((a + pv).map_values(f) =~= a.map_values(f) + pv.map_values(f));
        }
    }
    proof {
        assert(groups.take(chunks@.len() as int) =~= groups);
    }
    let ghost all = texts(items@);
    let mut out: Vec<String> = Vec::new();
    proof {
        assert(all.take(0) =~= Seq::<Seq<char>>::empty());
        assert(texts(out@) =~= Seq::<Seq<char>>::empty());
    }
    for k in 0..items.len()
        invariant
            all == texts(items@),
            texts(out@) == crate::exporters::non_blank_pieces(all.take(k as int)),
    {
        proof {
            assert(all.take(k + 1).drop_last() =~= all.take(k as int));
            assert(all.take(k + 1).last() == items@[k as int]@);
        }
        if !crate::text::is_blank_str(items[k].as_str()) {
            let ghost b3 = texts(out@);
            out.push(copy_string(&items[k]));
            proof {
                assert(texts(out@) =~= b3.push(items@[k as int]@));
            }
        }
    }
    proof {
        assert(all.take(items@.len() as int) =~= all);
    }
    out
}

pub open spec fn default_registration_file_names() -> Seq<Seq<char>> {
    seq!["wwreg.json"@, "wwreg.lic"@, "integra-desktop.lic"@, "license.wwreg"@]
}

/// The registration file names: those listed in the environment when the
/// list has any, else the four default names.
pub fn registration_file_names(env_value: &Option<String>) -> (r: Vec<String>)
    ensures
        texts(r@) == match *env_value {
            Some(v) => if list_items(v@).len() > 0 {
                list_items(v@)
            } else {
                default_registration_file_names()
            },
            None => default_registration_file_names(),
        },
{
    match env_value {
        Some(v) => {
            let parsed = list_items_of(v.as_str());
            if parsed.len() > 0 {
                return parsed;
            }
        },
        None => {},
    }
    let names = vec![
        str_to_string("wwreg.json"),
        str_to_string("wwreg.lic"),
        str_to_string("integra-desktop.lic"),
        str_to_string("license.wwreg"),
    ];
    proof {
        assert(texts(names@) =~= default_registration_file_names());
    }
    names
}

/// The extra folders searched for a registration file: those listed in
/// the environment, none otherwise.
pub fn registration_file_extra_paths(env_value: &Option<String>) -> (r: Vec<String>)
    ensures
        texts(r@) == match *env_value {
            Some(v) => list_items(v@),
            None => seq![],
        },
{
    match env_value {
        Some(v) => list_items_of(v.as_str()),
        None => {
            let out: Vec<String> = Vec::new();
            proof {
                assert(texts(out@) =~= Seq::<Seq<char>>::empty());
            }
            out
        },
    }
}

/// The configuration of the service for these settings: the environment's
/// endpoints when set, else the defaults; machine registration as the
/// settings say; fixed limits and blocking rules.
pub fn build_license_config(settings: &LicenseSettings, env: &LicenseEnvironment) -> (r: LicenseConfig)
    ensures
        r.base_url@ == resolve_base_url_spec(settings.service_url@),
        opt_view(r.api_token) == opt_view(env.api_token),
        r.resolve_activation_endpoint@ == or_else_text(env.resolve_endpoint, "/licensing/activation/resolve"@),
        r.status_endpoint@ == or_else_text(env.status_endpoint, crate::license_models::default_status_endpoint()),
        r.register_company_endpoint@ == or_else_text(
            env.register_company_endpoint,
            crate::license_models::default_register_company_endpoint(),
        ),
        r.register_device_endpoint@ == or_else_text(
            env.register_device_endpoint,
            crate::license_models::default_register_device_endpoint(),
        ),
        r.update_device_endpoint@ == or_else_text(
            env.update_device_endpoint,
            crate::license_models::default_update_device_endpoint(),
        ),
        r.offline_max_age_days == 15,
        r.warn_before_expiration_in_days == 5,
        r.auto_register_company_on_missing == settings.auto_register_machine,
        r.auto_register_device_on_missing == settings.auto_register_machine,
        r.auto_update_device_name,
        r.block_on_company_blocked,
        r.block_on_device_blocked,
        r.block_on_device_missing,
        r.block_on_expired,
        r.cache_namespace@ == settings.app_instance@,
        r.prefer_resolve_activation,
        r.allow_legacy_fallback,
        r.enable_registration_file_lookup,
        texts(r.registration_file_names@) == match env.registration_file_names {
            Some(v) => if list_items(v@).len() > 0 {
                list_items(v@)
            } else {
                default_registration_file_names()
            },
            None => default_registration_file_names(),
        },
        texts(r.registration_file_extra_paths@) == match env.registration_file_extra_paths {
            Some(v) => list_items(v@),
            None => seq![],
        },
        opt_view(r.registration_public_key_base64) == opt_view(env.registration_public_key_base64),
{
    LicenseConfig {
        base_url: resolve_base_url(settings.service_url.as_str()),
        api_token: opt_string_clone(&env.api_token),
        resolve_activation_endpoint: text_or(&env.resolve_endpoint, "/licensing/activation/resolve"),
        status_endpoint: text_or(
            &env.status_endpoint,
            "81b3767f-7bc5-4275-9453-a6a921010a17/86d7b2bee439957e040b72be6fea5fc2/cliente/{document}",
        ),
        register_company_endpoint: text_or(
            &env.register_company_endpoint,
            "81b3767f-7bc5-4275-9453-a6a921010a17/86d7b2bee439957e040b72be6fea5fc2/clientes",
        ),
        register_device_endpoint: text_or(
            &env.register_device_endpoint,
            "81b3767f-7bc5-4275-9453-a6a921010a17/86d7b2bee439957e040b72be6fea5fc2/maquinas",
        ),
        update_device_endpoint: text_or(
            &env.update_device_endpoint,
            "81b3767f-7bc5-4275-9453-a6a921010a17/86d7b2bee439957e040b72be6fea5fc2/maquinas/IDMAQUINA/{id}",
        ),
        offline_max_age_days: 15,
        warn_before_expiration_in_days: 5,
        auto_register_company_on_missing: settings.auto_register_machine,
        auto_register_device_on_missing: settings.auto_register_machine,
        auto_update_device_name: true,
        block_on_company_blocked: true,
        block_on_device_blocked: true,
        block_on_device_missing: true,
        block_on_expired: true,
        cache_namespace: copy_string(&settings.app_instance),
        prefer_resolve_activation: true,
        allow_legacy_fallback: true,
        enable_registration_file_lookup: true,
        registration_file_names: registration_file_names(&env.registration_file_names),
        registration_file_extra_paths: registration_file_extra_paths(
            &env.registration_file_extra_paths,
        ),
        registration_public_key_base64: opt_string_clone(&env.registration_public_key_base64),
    }
}

// ---------------------------------------------------------------------------
// From the service's decision to the runtime status
// ---------------------------------------------------------------------------

pub open spec fn moment_text(m: Option<crate::license_models::Moment>) -> Seq<char> {
    match m {
        Some(x) => x.local_text@,
        None => seq![],
    }
}

fn moment_text_of(m: &Option<crate::license_models::Moment>) -> (r: String)
    ensures
        r@ == moment_text(*m),
{
    match m {
        Some(x) => copy_string(&x.local_text),
        None => String::new(),
    }
}

fn text_or_string(o: &Option<String>, d: &String) -> (r: String)
    ensures
        r@ == or_else_text(*o, d@),
{
    match o {
        Some(v) => copy_string(v),
        None => copy_string(d),
    }
}

/// The license as the legacy screens show it.
pub open spec fn local_license_from(
    r: LocalLicense,
    license: LicenseRecord,
    settings: LicenseSettings,
    company_document: Seq<char>,
) -> bool {
    &&& r.empresa@ == or_else_text(license.company_name, settings.company_name@)
    &&& r.cnpj@ == or_else_text(license.document, company_document)
    &&& r.fantasia@ == or_else_text(license.company_name, settings.company_name@)
    &&& r.licencas@ == settings.app_instance@
    &&& r.ativo == license.active
    &&& r.email@ == or_else_text(license.company_email, settings.company_email@)
    &&& r.competencia@ == moment_text(license.expires_at)
    &&& r.bloqueio == license.blocked
    &&& r.app
    &&& r.terminal_ativo == !license.blocked
    &&& r.usadas == license.devices@.len() as i64
    &&& r.id == 0 && r.serial@.len() == 0 && r.endereco@.len() == 0 && r.bairro@.len() == 0
    &&& r.cidade@.len() == 0 && r.uf@.len() == 0 && r.cep@.len() == 0 && r.numero@.len() == 0
    &&& r.complemento@.len() == 0 && r.dias == 0 && r.serial_key@.len() == 0
    &&& !r.retaguarda && !r.pdv && !r.cte && !r.mdfe && !r.nfe && !r.frente && !r.sat
    &&& !r.boletos && !r.mfe && !r.commerce
}

pub fn map_local_license(
    license: &LicenseRecord,
    settings: &LicenseSettings,
    company_document: &str,
) -> (r: LocalLicense)
    ensures
        local_license_from(r, *license, *settings, company_document@),
{
    let mut out = LocalLicense::default();
    out.empresa = text_or_string(&license.company_name, &settings.company_name);
    out.cnpj = text_or(&license.document, company_document);
    out.fantasia = text_or_string(&license.company_name, &settings.company_name);
    out.licencas = copy_string(&settings.app_instance);
    out.ativo = license.active;
    out.email = text_or_string(&license.company_email, &settings.company_email);
    out.competencia = moment_text_of(&license.expires_at);
    out.bloqueio = license.blocked;
    out.app = true;
    out.terminal_ativo = !license.blocked;
    out.usadas = license.devices.len() as i64;
    out
}

/// The company as the legacy screens show it, from the service's license.
pub open spec fn licensed_company_from_license(
    r: LicensedCompany,
    license: LicenseRecord,
    settings: LicenseSettings,
    company_document: Seq<char>,
) -> bool {
    &&& r.cnpj@ == or_else_text(license.document, company_document)
    &&& r.emp_nomefantasia@ == or_else_text(license.company_name, settings.company_name@)
    &&& r.razaosocial@ == or_else_text(license.company_name, settings.company_name@)
    &&& r.emp_email@ == or_else_text(license.company_email, settings.company_email@)
    &&& r.emp_serie@ == settings.app_instance@
    &&& !r.bloqueio_admin
    &&& r.bloqueado == license.blocked
    &&& r.ativo == license.active
    &&& r.n_maquinas == match license.max_devices {
        Some(n) => n as i64,
        None => 0,
    }
    &&& r.data_val_lic@ == moment_text(license.expires_at)
    &&& r.emp_obs@ == product_name()
    &&& r.idcliente == 0
}

pub fn map_licensed_company(
    license: &LicenseRecord,
    settings: &LicenseSettings,
    company_document: &str,
) -> (r: LicensedCompany)
    ensures
        licensed_company_from_license(r, *license, *settings, company_document@),
{
    let mut out = LicensedCompany::default();
    out.cnpj = text_or(&license.document, company_document);
    out.emp_nomefantasia = text_or_string(&license.company_name, &settings.company_name);
    out.razaosocial = text_or_string(&license.company_name, &settings.company_name);
    out.emp_email = text_or_string(&license.company_email, &settings.company_email);
    out.emp_serie = copy_string(&settings.app_instance);
    out.bloqueio_admin = false;
    out.bloqueado = license.blocked;
    out.ativo = license.active;
    out.n_maquinas = match license.max_devices {
        Some(n) => n as i64,
        None => 0,
    };
    out.data_val_lic = moment_text_of(&license.expires_at);
    out.emp_obs = str_to_string("Integra Desktop");
    out
}

pub open spec fn first_text3(a: Option<String>, b: Option<String>, d: Seq<char>) -> Seq<char> {
    match a {
        Some(v) => v@,
        None => or_else_text(b, d),
    }
}

pub open spec fn opt_license_text(l: Option<LicenseRecord>, f: spec_fn(LicenseRecord) -> Option<String>) -> Option<String> {
    match l {
        Some(x) => f(x),
        None => None,
    }
}

/// The company as the legacy screens show it, from the service's company
/// record, completed from the application license and the license.
pub open spec fn licensed_company_from_record(
    r: LicensedCompany,
    company: CompanyRecord,
    app_license: Option<ApplicationLicenseRecord>,
    license: Option<LicenseRecord>,
    settings: LicenseSettings,
    company_document: Seq<char>,
) -> bool {
    let lic_doc = match license { Some(x) => x.document, None => None };
    let lic_name = match license { Some(x) => x.company_name, None => None };
    let lic_email = match license { Some(x) => x.company_email, None => None };
    &&& r.idcliente == match company.id {
        Some(v) => match crate::numbers::parse_i64(v@) {
            Some(n) => n,
            None => 0,
        },
        None => 0,
    }
    &&& r.cnpj@ == first_text3(company.document, lic_doc, company_document)
    &&& r.emp_nomefantasia@ == first_text3(company.legal_name, lic_name, settings.company_name@)
    &&& r.razaosocial@ == first_text3(company.legal_name, lic_name, settings.company_name@)
    &&& r.emp_email@ == first_text3(company.email, lic_email, settings.company_email@)
    &&& r.emp_serie@ == match app_license {
        Some(a) => or_else_text(a.application_slug, settings.app_instance@),
        None => settings.app_instance@,
    }
    &&& !r.bloqueio_admin
    &&& r.bloqueado == match license { Some(x) => x.blocked, None => false }
    &&& r.ativo == match license { Some(x) => x.active, None => true }
    &&& r.n_maquinas == (match (match app_license { Some(a) => a.max_devices, None => None }) {
        Some(n) => n as i64,
        None => match (match license { Some(x) => x.max_devices, None => None }) {
            Some(n) => n as i64,
            None => 0,
        },
    })
    &&& r.data_val_lic@ == (match (match app_license { Some(a) => a.expires_at, None => None }) {
        Some(m) => m.local_text@,
        None => moment_text(match license { Some(x) => x.expires_at, None => None }),
    })
    &&& r.emp_obs@ == product_name()
}

pub fn map_company_record(
    company: &CompanyRecord,
    app_license: Option<&ApplicationLicenseRecord>,
    license: Option<&LicenseRecord>,
    settings: &LicenseSettings,
    company_document: &str,
) -> (r: LicensedCompany)
    ensures
        licensed_company_from_record(
            r,
            *company,
            match app_license { Some(a) => Some(*a), None => None },
            match license { Some(x) => Some(*x), None => None },
            *settings,
            company_document@,
        ),
{
    let mut out = LicensedCompany::default();
    out.idcliente = match &company.id {
        Some(v) => match crate::numbers::parse_i64_chars(&chars_of_string(v)) {
            Some(n) => n,
            None => 0,
        },
        None => 0,
    };
    let lic_doc = match license { Some(x) => opt_string_clone(&x.document), None => None };
    let lic_name = match license { Some(x) => opt_string_clone(&x.company_name), None => None };
    let lic_email = match license { Some(x) => opt_string_clone(&x.company_email), None => None };
    out.cnpj = match &company.document {
        Some(v) => copy_string(v),
        None => text_or(&lic_doc, company_document),
    };
    out.emp_nomefantasia = match &company.legal_name {
        Some(v) => copy_string(v),
        None => text_or_string(&lic_name, &settings.company_name),
    };
    out.razaosocial = match &company.legal_name {
        Some(v) => copy_string(v),
        None => text_or_string(&lic_name, &settings.company_name),
    };
    out.emp_email = match &company.email {
        Some(v) => copy_string(v),
        None => text_or_string(&lic_email, &settings.company_email),
    };
    out.emp_serie = match app_license {
        Some(a) => text_or_string(&a.application_slug, &settings.app_instance),
        None => copy_string(&settings.app_instance),
    };
    out.bloqueio_admin = false;
    out.bloqueado = match license { Some(x) => x.blocked, None => false };
    out.ativo = match license { Some(x) => x.active, None => true };
    let app_max = match app_license { Some(a) => a.max_devices, None => None };
    let lic_max = match license { Some(x) => x.max_devices, None => None };
    out.n_maquinas = match app_max {
        Some(n) => n as i64,
        None => match lic_max {
            Some(n) => n as i64,
            None => 0,
        },
    };
    out.data_val_lic = match app_license {
        Some(a) => match &a.expires_at {
            Some(m) => copy_string(&m.local_text),
            None => match license { Some(x) => moment_text_of(&x.expires_at), None => String::new() },
        },
        None => match license { Some(x) => moment_text_of(&x.expires_at), None => String::new() },
    };
    out.emp_obs = str_to_string("Integra Desktop");
    out
}

pub open spec fn station_choice(o: Option<String>, d: Seq<char>) -> Option<Seq<char>> {
    match o {
        Some(v) => Some(v@),
        None => Some(d),
    }
}

/// A machine of the license as the legacy screens show it.
pub open spec fn licensed_device_from(
    r: LicensedDevice,
    device: DeviceRecord,
    company_document: Seq<char>,
    station_name: Seq<char>,
    settings: LicenseSettings,
    app_version: Seq<char>,
) -> bool {
    &&& r.idmaquina == match device.id {
        Some(v) => match crate::numbers::parse_i64(v@) {
            Some(n) => n,
            None => 0,
        },
        None => 0,
    }
    &&& r.cnpj@ == company_document
    &&& r.chave@ == opt_or_empty(device.device_key)
    &&& r.nome@ == settings.company_name@
    &&& r.bloqueado == device.blocked
    &&& r.modulos@ == settings.app_instance@
    &&& r.nome_compu@ == first_text3(
        device.computer_name,
        device.hostname,
        or_else_text(device.device_name, station_name),
    )
    &&& r.prog_acesso@ == opt_or_empty(device.logged_user)
    &&& r.cod_ace_remoto@ == opt_or_empty(device.domain_name)
    &&& r.versao_bd@.len() == 0
    &&& r.versaoexe@ == app_version
    &&& r.sistema_operacional@ == join(
        present_parts(seq![opt_view(device.os_name), opt_view(device.os_version), opt_view(device.os_arch)]),
        " | "@,
    )
    &&& r.memoria_ram@.len() == 0
    &&& r.tipo@ == or_else_text(device.install_mode, settings.app_instance@)
    &&& r.observacao@ == product_name()
    &&& r.tecnico_instalacao@ == opt_or_empty(device.logged_user)
    &&& r.serial_number@ == opt_or_empty(device.serial_number)
    &&& r.hostname@ == opt_or_empty(device.hostname)
    &&& r.station_name@ == first_text3(device.station_name, device.device_name, station_name)
    &&& r.machine_guid@ == opt_or_empty(device.machine_guid)
    &&& r.bios_serial@ == opt_or_empty(device.bios_serial)
    &&& r.motherboard_serial@ == opt_or_empty(device.motherboard_serial)
    &&& r.full_device_name@ == join(
        distinct_parts(
            seq![
                station_choice(device.station_name, station_name),
                opt_view(device.computer_name),
                opt_view(device.hostname),
            ],
        ),
        " | "@,
    )
}

fn opt_as_str(o: &Option<String>) -> (r: Option<&str>)
    ensures
        opt_str(r) == opt_view(*o),
{
    match o {
        Some(v) => Some(v.as_str()),
        None => None,
    }
}

pub fn map_licensed_device(
    device: &DeviceRecord,
    company_document: &str,
    station_name: &str,
    settings: &LicenseSettings,
    app_version: &str,
) -> (r: LicensedDevice)
    ensures
        licensed_device_from(r, *device, company_document@, station_name@, *settings, app_version@),
{
    let st_opt: Option<&str> = match &device.station_name {
        Some(v) => Some(v.as_str()),
        None => Some(station_name),
    };
    let cn_opt = opt_as_str(&device.computer_name);
    let hn_opt = opt_as_str(&device.hostname);
    let full_name = full_device_name(st_opt, cn_opt, hn_opt);
    proof {
        let expected = seq![
            station_choice(device.station_name, station_name@),
            opt_view(device.computer_name),
            opt_view(device.hostname),
        ];
        assert(seq![opt_str(st_opt), opt_str(cn_opt), opt_str(hn_opt)] =~= expected);
    }
    let idmaquina = match &device.id {
        Some(v) => match crate::numbers::parse_i64_chars(&chars_of_string(v)) {
            Some(n) => n,
            None => 0,
        },
        None => 0,
    };
    let station = str_to_string(station_name);
    LicensedDevice {
        idmaquina,
        cnpj: str_to_string(company_document),
        chave: crate::text::opt_text_or_empty(&device.device_key),
        nome: copy_string(&settings.company_name),
        bloqueado: device.blocked,
        modulos: copy_string(&settings.app_instance),
        nome_compu: match &device.computer_name {
            Some(v) => copy_string(v),
            None => match &device.hostname {
                Some(v) => copy_string(v),
                None => text_or_string(&device.device_name, &station),
            },
        },
        prog_acesso: crate::text::opt_text_or_empty(&device.logged_user),
        cod_ace_remoto: crate::text::opt_text_or_empty(&device.domain_name),
        versao_bd: String::new(),
        versaoexe: str_to_string(app_version),
        sistema_operacional: full_os_name(
            opt_as_str(&device.os_name),
            opt_as_str(&device.os_version),
            opt_as_str(&device.os_arch),
        ),
        memoria_ram: String::new(),
        tipo: text_or_string(&device.install_mode, &settings.app_instance),
        observacao: str_to_string("Integra Desktop"),
        tecnico_instalacao: crate::text::opt_text_or_empty(&device.logged_user),
        serial_number: crate::text::opt_text_or_empty(&device.serial_number),
        hostname: crate::text::opt_text_or_empty(&device.hostname),
        station_name: match &device.station_name {
            Some(v) => copy_string(v),
            None => text_or_string(&device.device_name, &station),
        },
        machine_guid: crate::text::opt_text_or_empty(&device.machine_guid),
        bios_serial: crate::text::opt_text_or_empty(&device.bios_serial),
        motherboard_serial: crate::text::opt_text_or_empty(&device.motherboard_serial),
        full_device_name: full_name,
    }
}

/// The company of the decision as the legacy screens show it: from the
/// company record when there is one, else from the license.
pub open spec fn runtime_company_ok(
    r: Option<LicensedCompany>,
    decision: LicenseDecision,
    settings: LicenseSettings,
    company_document: Seq<char>,
) -> bool {
    match decision.company {
        Some(c) => r matches Some(x) && licensed_company_from_record(
            x,
            c,
            decision.application_license,
            decision.license,
            settings,
            company_document,
        ),
        None => match decision.license {
            Some(l) => r matches Some(x) && licensed_company_from_license(x, l, settings, company_document),
            None => r is None,
        },
    }
}

pub fn map_company_to_runtime(
    decision: &LicenseDecision,
    settings: &LicenseSettings,
    company_document: &str,
) -> (r: Option<LicensedCompany>)
    ensures
        runtime_company_ok(r, *decision, *settings, company_document@),
{
    match &decision.company {
        Some(company) => {
            let app_license = match &decision.application_license {
                Some(a) => Some(a),
                None => None,
            };
            let license = match &decision.license {
                Some(l) => Some(l),
                None => None,
            };
            Some(map_company_record(company, app_license, license, settings, company_document))
        },
        None => match &decision.license {
            Some(l) => Some(map_licensed_company(l, settings, company_document)),
            None => None,
        },
    }
}

/// Why a refused check was refused: the service's reason, lower-cased,
/// when it gave one; else the first that holds of a blocked company, a
/// blocked machine, an expired license, no seat left, an inactive company
/// and an unregistered machine; else a refusal of the service.  Nothing
/// when the check allowed.
pub open spec fn block_reason_spec(
    decision: LicenseDecision,
    company_blocked: bool,
    machine_blocked: bool,
    company_inactive: bool,
    expired: bool,
    seats_exceeded: bool,
    machine_registered: bool,
) -> Option<Seq<char>> {
    if decision.allowed {
        None
    } else {
        match decision.reason_code {
            Some(code) => Some(crate::text::unicode_lower(code@)),
            None => Some(
                if company_blocked {
                    "company_blocked"@
                } else if machine_blocked {
                    "machine_blocked"@
                } else if expired {
                    "license_expired"@
                } else if seats_exceeded {
                    "seats_exceeded"@
                } else if company_inactive {
                    "company_inactive"@
                } else if !machine_registered {
                    "device_not_registered"@
                } else {
                    "service_denied"@
                },
            ),
        }
    }
}

pub fn infer_block_reason(
    decision: &LicenseDecision,
    company_blocked: bool,
    machine_blocked: bool,
    company_inactive: bool,
    expired: bool,
    seats_exceeded: bool,
    machine_registered: bool,
) -> (r: Option<String>)
    ensures
        opt_view(r) == block_reason_spec(
            *decision,
            company_blocked,
            machine_blocked,
            company_inactive,
            expired,
            seats_exceeded,
            machine_registered,
        ),
{
    if decision.allowed {
        return None;
    }
    match &decision.reason_code {
        Some(code) => {
            return Some(crate::text::to_lowercase_str(code.as_str()));
        },
        None => {},
    }
    let reason = if company_blocked {
        "company_blocked"
    } else if machine_blocked {
        "machine_blocked"
    } else if expired {
        "license_expired"
    } else if seats_exceeded {
        "seats_exceeded"
    } else if company_inactive {
        "company_inactive"
    } else if !machine_registered {
        "device_not_registered"
    } else {
        "service_denied"
    };
    Some(str_to_string(reason))
}

pub open spec fn diagnostic_text(d: crate::license_models::Diagnostic) -> Seq<char> {
    d.step@ + ":"@ + d.code@ + ":"@ + d.message@
}

/// The parts of the technical message, in order.
pub open spec fn technical_parts(decision: LicenseDecision) -> Seq<Seq<char>> {
    let p0: Seq<Seq<char>> = seq![];
    let p1 = match decision.step {
        Some(st) => p0.push("step="@ + st@),
        None => p0,
    };
    let p2 = match decision.reason_code {
        Some(c) => p1.push("reason="@ + c@),
        None => p1,
    };
    let p3 = match decision.warning {
        Some(w) => p2.push(w@),
        None => p2,
    };
    let p4 = if decision.used_offline_cache {
        p3.push("cache offline do componente"@)
    } else {
        p3
    };
    let p5 = if trim(decision.source@).len() > 0 {
        p4.push("source="@ + decision.source@)
    } else {
        p4
    };
    if decision.diagnostics@.len() > 0 {
        p5.push(
            join(
                decision.diagnostics@.map_values(
                    |d: crate::license_models::Diagnostic| diagnostic_text(d),
                ),
                " | "@,
            ),
        )
    } else {
        p5
    }
}

/// The technical message of a decision: its step, reason, warning, cache
/// use, source and diagnostics joined with ` | `; just the source when
/// there is none of them.
pub open spec fn technical_message_spec(decision: LicenseDecision) -> Seq<char> {
    if technical_parts(decision).len() == 0 {
        decision.source@
    } else {
        join(technical_parts(decision), " | "@)
    }
}

fn prefixed(head: &str, value: &String) -> (r: String)
    ensures
        r@ == head@ + value@,
{
    let mut v = chars_of(head);
    append_chars(&mut v, &chars_of_string(value));
    string_of(&v)
}

pub fn build_technical_message(decision: &LicenseDecision) -> (r: String)
    ensures
        r@ == technical_message_spec(*decision),
{
    let mut parts: Vec<String> = Vec::new();
    match &decision.step {
        Some(step) => parts.push(prefixed("step=", step)),
        None => {},
    }
    match &decision.reason_code {
        Some(code) => parts.push(prefixed("reason=", code)),
        None => {},
    }
    match &decision.warning {
        Some(w) => parts.push(copy_string(w)),
        None => {},
    }
    if decision.used_offline_cache {
        parts.push(str_to_string("cache offline do componente"));
    }
    if !crate::text::is_blank_str(decision.source.as_str()) {
        parts.push(prefixed("source=", &decision.source));
    }
    if decision.diagnostics.len() > 0 {
        let mut ds: Vec<String> = Vec::new();
        for i in 0..decision.diagnostics.len()
            invariant
                ds@.len() == i,
                forall|k: int| 0 <= k < i ==> (#[trigger] ds@[k])@ == diagnostic_text(
                    decision.diagnostics@[k],
                ),
        {
            let d = &decision.diagnostics[i];
            let mut v = chars_of_string(&d.step);
            append_str(&mut v, ":");
            append_chars(&mut v, &chars_of_string(&d.code));
            append_str(&mut v, ":");
            append_chars(&mut v, &chars_of_string(&d.message));
            ds.push(string_of(&v));
        }
        proof {
            assert(texts(ds@) =~= decision.diagnostics@.map_values(
                |d: crate::license_models::Diagnostic| diagnostic_text(d),
            ));
        }
        parts.push(join_strings(&ds, " | "));
    }
    proof {
        assert(texts(parts@) =~= technical_parts(*decision));
    }
    if parts.len() == 0 {
        copy_string(&decision.source)
    } else {
        join_strings(&parts, " | ")
    }
}

/// When the decision's license ends: the application license's date, else
/// the license's.
pub open spec fn decision_expiry(decision: LicenseDecision) -> Option<crate::license_models::Moment> {
    match (match decision.application_license { Some(a) => a.expires_at, None => None }) {
        Some(m) => Some(m),
        None => match decision.license { Some(l) => l.expires_at, None => None },
    }
}

pub open spec fn seats_total_spec(decision: LicenseDecision) -> u32 {
    match (match decision.application_license { Some(a) => a.max_devices, None => None }) {
        Some(n) => n,
        None => match (match decision.license { Some(l) => l.max_devices, None => None }) {
            Some(n) => n,
            None => 0,
        },
    }
}

pub open spec fn seats_used_spec(decision: LicenseDecision) -> u32 {
    match (match decision.application_license { Some(a) => a.devices_in_use, None => None }) {
        Some(n) => n,
        None => match (match decision.license { Some(l) => l.devices_in_use, None => None }) {
            Some(n) => n,
            None => match decision.license {
                Some(l) => l.devices@.len() as u32,
                None => 0,
            },
        },
    }
}

pub open spec fn machine_registered_spec(decision: LicenseDecision) -> bool {
    match decision.device {
        Some(d) => d.bound || d.reused_existing || d.id is Some,
        None => false,
    }
}

pub open spec fn machine_blocked_spec(decision: LicenseDecision) -> bool {
    match decision.device {
        Some(d) => d.blocked,
        None => false,
    }
}

/// The runtime status for a decision of the service at time `now`.
pub open spec fn runtime_from_decision(
    r: LicenseRuntimeStatus,
    decision: LicenseDecision,
    settings: LicenseSettings,
    company_document: Seq<char>,
    station_name: Seq<char>,
    now: (i64, u32),
    app_version: Seq<char>,
) -> bool {
    let registered = machine_registered_spec(decision);
    let total = seats_total_spec(decision);
    let used = seats_used_spec(decision);
    let company_blocked = match r.licensed_company { Some(c) => c.bloqueado || c.bloqueio_admin, None => false };
    let company_inactive = match r.licensed_company { Some(c) => !c.ativo, None => false };
    let expired = match decision_expiry(decision) { Some(m) => crate::license_models::moment_before(m, now), None => false };
    &&& r.online == !decision.used_offline_cache
    &&& r.allowed == decision.allowed
    &&& r.blocked == !decision.allowed
    &&& r.machine_registered == registered
    &&& r.machine_blocked == machine_blocked_spec(decision)
    &&& r.seats_total == total
    &&& r.seats_used == used
    &&& opt_view(r.expiry) == match decision_expiry(decision) { Some(m) => Some(m.local_text@), None => None }
    &&& r.message@ == decision.message@
    &&& opt_view(r.block_reason) == block_reason_spec(
        decision,
        company_blocked,
        machine_blocked_spec(decision),
        company_inactive,
        expired,
        !registered && total > 0 && used >= total,
        registered,
    )
    &&& r.technical_message@ == technical_message_spec(decision)
    &&& runtime_company_ok(r.licensed_company, decision, settings, company_document)
    &&& r.company_name@ == match r.licensed_company { Some(c) => c.razaosocial@, None => settings.company_name@ }
    &&& r.company_document@ == match r.licensed_company { Some(c) => c.cnpj@, None => company_document }
    &&& r.machine_key@ == settings.machine_key@
    &&& r.status_code == if decision.allowed { 1i32 } else { 0i32 }
    &&& match decision.license {
        Some(l) => r.local_license matches Some(x) && local_license_from(x, l, settings, company_document),
        None => r.local_license is None,
    }
    &&& match decision.device {
        Some(d) => r.licensed_device matches Some(x) && licensed_device_from(
            x,
            d,
            company_document,
            station_name,
            settings,
            app_version,
        ),
        None => r.licensed_device is None,
    }
}

/// Why a refused decision blocks, as far as the license's expiry goes: with
/// no reason from the service and neither the company nor the machine
/// blocked, a license that expired before `now` is reported as
/// `license_expired`; one that has not expired by `now` (or never
/// expires) is never reported so.
pub proof fn law_runtime_expiry_reason(
    r: LicenseRuntimeStatus,
    decision: LicenseDecision,
    settings: LicenseSettings,
    company_document: Seq<char>,
    station_name: Seq<char>,
    now: (i64, u32),
    app_version: Seq<char>,
)
    requires
        runtime_from_decision(r, decision, settings, company_document, station_name, now, app_version),
        !decision.allowed,
        decision.reason_code is None,
        !(match r.licensed_company { Some(c) => c.bloqueado || c.bloqueio_admin, None => false }),
        !machine_blocked_spec(decision),
    ensures
        (decision_expiry(decision) matches Some(m) && (m.unix_seconds < now.0 || (m.unix_seconds == now.0
            && m.nanos < now.1))) ==> opt_view(r.block_reason) == Some("license_expired"@),
        (match decision_expiry(decision) {
            Some(m) => now.0 < m.unix_seconds || (now.0 == m.unix_seconds && now.1 <= m.nanos),
            None => true,
        }) ==> opt_view(r.block_reason) != Some("license_expired"@),
{
    reveal_strlit("license_expired");
    reveal_strlit("seats_exceeded");
    reveal_strlit("company_inactive");
    reveal_strlit("device_not_registered");
    reveal_strlit("service_denied");
    assert("license_expired"@[0] != "seats_exceeded"@[0]);
    assert("license_expired"@[0] != "company_inactive"@[0]);
    assert("license_expired"@[0] != "device_not_registered"@[0]);
    assert("license_expired"@[0] != "service_denied"@[0]);
}

pub fn map_decision_to_runtime(
    decision: &LicenseDecision,
    settings: &LicenseSettings,
    company_document: &str,
    station_name: &str,
    now: (i64, u32),
    app_version: &str,
) -> (r: LicenseRuntimeStatus)
    ensures
        runtime_from_decision(r, *decision, *settings, company_document@, station_name@, now, app_version@),
{
    let local_license = match &decision.license {
        Some(l) => Some(map_local_license(l, settings, company_document)),
        None => None,
    };
    let licensed_company = map_company_to_runtime(decision, settings, company_document);
    let licensed_device = match &decision.device {
        Some(d) => Some(map_licensed_device(d, company_document, station_name, settings, app_version)),
        None => None,
    };
    let app_max = match &decision.application_license { Some(a) => a.max_devices, None => None };
    let lic_max = match &decision.license { Some(l) => l.max_devices, None => None };
    let seats_total: u32 = match app_max {
        Some(n) => n,
        None => match lic_max {
            Some(n) => n,
            None => 0,
        },
    };
    let app_used = match &decision.application_license { Some(a) => a.devices_in_use, None => None };
    let lic_used = match &decision.license { Some(l) => l.devices_in_use, None => None };
    let seats_used: u32 = match app_used {
        Some(n) => n,
        None => match lic_used {
            Some(n) => n,
            None => match &decision.license {
                Some(l) => l.devices.len() as u32,
                None => 0,
            },
        },
    };
    let machine_registered = match &decision.device {
        Some(d) => d.bound || d.reused_existing || d.id.is_some(),
        None => false,
    };
    let machine_blocked = match &decision.device {
        Some(d) => d.blocked,
        None => false,
    };
    let company_blocked = match &licensed_company {
        Some(c) => c.bloqueado || c.bloqueio_admin,
        None => false,
    };
    let company_inactive = match &licensed_company {
        Some(c) => !c.ativo,
        None => false,
    };
    let expiry_moment: Option<&crate::license_models::Moment> = match &decision.application_license {
        Some(a) => match &a.expires_at {
            Some(m) => Some(m),
            None => match &decision.license {
                Some(l) => match &l.expires_at { Some(m) => Some(m), None => None },
                None => None,
            },
        },
        None => match &decision.license {
            Some(l) => match &l.expires_at { Some(m) => Some(m), None => None },
            None => None,
        },
    };
    proof {
        assert(match expiry_moment { Some(m) => Some(*m), None => None } == decision_expiry(*decision));
    }
    let expiry = match expiry_moment {
        Some(m) => Some(copy_string(&m.local_text)),
        None => None,
    };
    let expired = match expiry_moment {
        Some(m) => crate::license_models::moment_is_before(m, now),
        None => false,
    };
    let seats_exceeded = !machine_registered && seats_total > 0 && seats_used >= seats_total;
    let block_reason = infer_block_reason(
        decision,
        company_blocked,
        machine_blocked,
        company_inactive,
        expired,
        seats_exceeded,
        machine_registered,
    );
    let company_name = match &licensed_company {
        Some(c) => copy_string(&c.razaosocial),
        None => copy_string(&settings.company_name),
    };
    let company_document_out = match &licensed_company {
        Some(c) => copy_string(&c.cnpj),
        None => str_to_string(company_document),
    };
    LicenseRuntimeStatus {
        online: !decision.used_offline_cache,
        allowed: decision.allowed,
        blocked: !decision.allowed,
        machine_registered,
        machine_blocked,
        seats_total,
        seats_used,
        expiry,
        message: copy_string(&decision.message),
        block_reason,
        technical_message: build_technical_message(decision),
        company_name,
        company_document: company_document_out,
        machine_key: copy_string(&settings.machine_key),
        status_code: if decision.allowed { 1 } else { 0 },
        local_license,
        licensed_company,
        licensed_device,
    }
}

/// The machines kept in the snapshot: every device of the license when it
/// lists some, else the decision's device, else none.
pub fn build_snapshot_devices(
    decision: &LicenseDecision,
    company_document: &str,
    station_name: &str,
    settings: &LicenseSettings,
    app_version: &str,
) -> (r: Vec<LicensedDevice>)
    ensures
        match decision.license {
            Some(l) if l.devices@.len() > 0 => r@.len() == l.devices@.len() && forall|k: int|
                0 <= k < r@.len() ==> licensed_device_from(
                    #[trigger] r@[k],
                    l.devices@[k],
                    company_document@,
                    station_name@,
                    *settings,
                    app_version@,
                ),
            _ => match decision.device {
                Some(d) => r@.len() == 1 && licensed_device_from(
                    r@[0],
                    d,
                    company_document@,
                    station_name@,
                    *settings,
                    app_version@,
                ),
                None => r@.len() == 0,
            },
        },
{
    match &decision.license {
        Some(license) => {
            if license.devices.len() > 0 {
                let mut out: Vec<LicensedDevice> = Vec::new();
                for i in 0..license.devices.len()
                    invariant
                        out@.len() == i,
                        forall|k: int|
                            0 <= k < i ==> licensed_device_from(
                                #[trigger] out@[k],
                                license.devices@[k],
                                company_document@,
                                station_name@,
                                *settings,
                                app_version@,
                            ),
                {
                    out.push(
                        map_licensed_device(
                            &license.devices[i],
                            company_document,
                            station_name,
                            settings,
                            app_version,
                        ),
                    );
                }
                return out;
            }
        },
        None => {},
    }
    match &decision.device {
        Some(d) => vec![map_licensed_device(d, company_document, station_name, settings, app_version)],
        None => Vec::new(),
    }
}

pub open spec fn company_field(
    decision: LicenseDecision,
    from_company: spec_fn(CompanyRecord) -> Option<String>,
    from_license: spec_fn(LicenseRecord) -> Option<String>,
) -> Option<String> {
    match decision.company {
        Some(c) => from_company(c),
        None => match decision.license {
            Some(l) => from_license(l),
            None => None,
        },
    }
}

/// The settings completed from a decision: a blank document, name or
/// e-mail taken from the company record (the name falling back on the
/// license's), else from the license; a blank station named; the document
/// reduced to its digits.
pub open spec fn hydrated_from_decision(
    s: LicenseSettings,
    r: LicenseSettings,
    decision: LicenseDecision,
    station_name: Seq<char>,
) -> bool {
    let doc = if trim(s.company_document@).len() == 0 {
        match company_field(decision, |c: CompanyRecord| c.document, |l: LicenseRecord| l.document) {
            Some(d) => digits(d@),
            None => s.company_document@,
        }
    } else {
        s.company_document@
    };
    let lic_name = match decision.license { Some(l) => l.company_name, None => None };
    &&& r.company_document@ == digits(doc)
    &&& r.company_name@ == if trim(s.company_name@).len() == 0 {
        match decision.company {
            Some(c) => match c.legal_name {
                Some(n) => n@,
                None => or_else_text(lic_name, s.company_name@),
            },
            None => or_else_text(lic_name, s.company_name@),
        }
    } else {
        s.company_name@
    }
    &&& r.company_email@ == if trim(s.company_email@).len() == 0 {
        or_else_text(
            company_field(decision, |c: CompanyRecord| c.email, |l: LicenseRecord| l.company_email),
            s.company_email@,
        )
    } else {
        s.company_email@
    }
    &&& r.station_name@ == if trim(s.station_name@).len() == 0 {
        station_name
    } else {
        s.station_name@
    }
    &&& r.service_url@ == s.service_url@
    &&& r.machine_key@ == s.machine_key@
    &&& r.app_instance@ == s.app_instance@
    &&& r.licensing_disabled == s.licensing_disabled
    &&& r.auto_register_machine == s.auto_register_machine
}

pub fn hydrate_settings_from_decision(
    settings: LicenseSettings,
    decision: &LicenseDecision,
    station_name: &str,
) -> (r: LicenseSettings)
    ensures
        hydrated_from_decision(settings, r, *decision, station_name@),
{
    let mut settings = settings;
    if crate::text::is_blank_str(settings.company_document.as_str()) {
        let found = match &decision.company {
            Some(c) => opt_string_clone(&c.document),
            None => match &decision.license {
                Some(l) => opt_string_clone(&l.document),
                None => None,
            },
        };
        match found {
            Some(d) => {
                settings.company_document = only_digits(d.as_str());
            },
            None => {},
        }
    }
    if crate::text::is_blank_str(settings.company_name.as_str()) {
        let lic_name = match &decision.license { Some(l) => opt_string_clone(&l.company_name), None => None };
        match &decision.company {
            Some(c) => match &c.legal_name {
                Some(n) => {
                    settings.company_name = copy_string(n);
                },
                None => {
                    replace_if_some(&mut settings.company_name, &lic_name);
                },
            },
            None => {
                replace_if_some(&mut settings.company_name, &lic_name);
            },
        }
    }
    if crate::text::is_blank_str(settings.company_email.as_str()) {
        let found = match &decision.company {
            Some(c) => opt_string_clone(&c.email),
            None => match &decision.license {
                Some(l) => opt_string_clone(&l.company_email),
                None => None,
            },
        };
        replace_if_some(&mut settings.company_email, &found);
    }
    if crate::text::is_blank_str(settings.station_name.as_str()) {
        settings.station_name = str_to_string(station_name);
    }
    settings.company_document = only_digits(settings.company_document.as_str());
    settings
}

/// The settings completed from a validated local license: each blank
/// text taken from the license file (the document's digits).
pub open spec fn hydrated_from_local(
    s: LicenseSettings,
    r: LicenseSettings,
    validation: LocalLicenseValidationResult,
) -> bool {
    match validation.payload {
        Some(p) => {
            &&& r.company_name@ == if trim(s.company_name@).len() == 0 { p.company_name@ } else { s.company_name@ }
            &&& r.company_document@ == if trim(s.company_document@).len() == 0 {
                digits(p.company_document@)
            } else {
                s.company_document@
            }
            &&& r.company_email@ == if trim(s.company_email@).len() == 0 { p.company_email@ } else { s.company_email@ }
            &&& r.station_name@ == if trim(s.station_name@).len() == 0 { p.station_name@ } else { s.station_name@ }
            &&& r.machine_key@ == if trim(s.machine_key@).len() == 0 { p.machine_key@ } else { s.machine_key@ }
            &&& r.service_url@ == s.service_url@
            &&& r.app_instance@ == s.app_instance@
        },
        None => {
            &&& r.company_name@ == s.company_name@
            &&& r.company_document@ == s.company_document@
            &&& r.company_email@ == s.company_email@
            &&& r.station_name@ == s.station_name@
            &&& r.machine_key@ == s.machine_key@
            &&& r.service_url@ == s.service_url@
            &&& r.app_instance@ == s.app_instance@
        },
    }
}

pub fn hydrate_settings_from_local_validation(
    settings: LicenseSettings,
    validation: &LocalLicenseValidationResult,
) -> (r: LicenseSettings)
    ensures
        hydrated_from_local(settings, r, *validation),
{
    let mut settings = settings;
    match &validation.payload {
        Some(payload) => {
            if crate::text::is_blank_str(settings.company_name.as_str()) {
                settings.company_name = copy_string(&payload.company_name);
            }
            if crate::text::is_blank_str(settings.company_document.as_str()) {
                settings.company_document = only_digits(payload.company_document.as_str());
            }
            if crate::text::is_blank_str(settings.company_email.as_str()) {
                settings.company_email = copy_string(&payload.company_email);
            }
            if crate::text::is_blank_str(settings.station_name.as_str()) {
                settings.station_name = copy_string(&payload.station_name);
            }
            if crate::text::is_blank_str(settings.machine_key.as_str()) {
                settings.machine_key = copy_string(&payload.machine_key);
            }
        },
        None => {},
    }
    settings
}

/// The runtime status when licensing is disabled: allowed, registered,
/// offline, with the settings' company and machine.
pub fn build_licensing_disabled_runtime(settings: &LicenseSettings) -> (r: LicenseRuntimeStatus)
    ensures
        !r.online && r.allowed && !r.blocked && r.machine_registered && !r.machine_blocked,
        r.seats_total == 0 && r.seats_used == 0 && r.expiry is None,
        r.message@ == "licenciamento desabilitado na configuração da aplicação"@,
        r.block_reason is None,
        r.technical_message@ == "source=settings | mode=licensing-disabled"@,
        r.company_name@ == settings.company_name@,
        r.company_document@ == settings.company_document@,
        r.machine_key@ == settings.machine_key@,
        r.status_code == 1,
        r.local_license is None && r.licensed_company is None && r.licensed_device is None,
{
    LicenseRuntimeStatus {
        online: false,
        allowed: true,
        blocked: false,
        machine_registered: true,
        machine_blocked: false,
        seats_total: 0,
        seats_used: 0,
        expiry: None,
        message: str_to_string("licenciamento desabilitado na configuração da aplicação"),
        block_reason: None,
        technical_message: str_to_string("source=settings | mode=licensing-disabled"),
        company_name: copy_string(&settings.company_name),
        company_document: copy_string(&settings.company_document),
        machine_key: copy_string(&settings.machine_key),
        status_code: 1,
        local_license: None,
        licensed_company: None,
        licensed_device: None,
    }
}

/// The runtime status when a local license fails validation: refused and
/// blocked, for the validation's reason (lower-cased).
pub fn map_local_license_validation_failure_to_runtime(
    validation: &LocalLicenseValidationResult,
    settings: &LicenseSettings,
) -> (r: LicenseRuntimeStatus)
    ensures
        !r.online && !r.allowed && r.blocked && !r.machine_registered && !r.machine_blocked,
        r.seats_total == 0 && r.seats_used == 0 && r.expiry is None,
        r.message@ == validation.message@,
        opt_view(r.block_reason) == Some(crate::text::unicode_lower(validation.reason_code@)),
        r.technical_message@ == "source=local-license | reason="@ + validation.reason_code@
            + " | file="@ + opt_or_empty(validation.file_path),
        r.company_name@ == settings.company_name@,
        r.company_document@ == settings.company_document@,
        r.machine_key@ == settings.machine_key@,
        r.status_code == 0,
        r.local_license is None && r.licensed_company is None && r.licensed_device is None,
{
    let mut tech = chars_of("source=local-license | reason=");
    append_chars(&mut tech, &chars_of_string(&validation.reason_code));
    append_str(&mut tech, " | file=");
    append_chars(&mut tech, &chars_of_string(&crate::text::opt_text_or_empty(&validation.file_path)));
    LicenseRuntimeStatus {
        online: false,
        allowed: false,
        blocked: true,
        machine_registered: false,
        machine_blocked: false,
        seats_total: 0,
        seats_used: 0,
        expiry: None,
        message: copy_string(&validation.message),
        block_reason: Some(crate::text::to_lowercase_str(validation.reason_code.as_str())),
        technical_message: string_of(&tech),
        company_name: copy_string(&settings.company_name),
        company_document: copy_string(&settings.company_document),
        machine_key: copy_string(&settings.machine_key),
        status_code: 0,
        local_license: None,
        licensed_company: None,
        licensed_device: None,
    }
}

/// The runtime status when the licensing component fails: the last saved
/// status (with this connectivity and message) when there is one, else an
/// allowed status on the local cache.
pub fn from_cache_or_default(
    settings: &LicenseSettings,
    online: bool,
    technical_message: &str,
    cached: Option<LicenseSnapshot>,
) -> (r: LicenseRuntimeStatus)
    ensures
        r.online == online,
        r.technical_message@ == technical_message@,
        match cached {
            Some(snap) => {
                &&& r.allowed == snap.runtime_status.allowed
                &&& r.blocked == snap.runtime_status.blocked
                &&& r.message@ == snap.runtime_status.message@
                &&& r.company_document@ == snap.runtime_status.company_document@
                &&& r.status_code == snap.runtime_status.status_code
                &&& r.seats_total == snap.runtime_status.seats_total
                &&& r.seats_used == snap.runtime_status.seats_used
                &&& r.machine_registered == snap.runtime_status.machine_registered
            },
            None => {
                &&& r.allowed && !r.blocked && !r.machine_registered && !r.machine_blocked
                &&& r.seats_total == 0 && r.seats_used == 0 && r.expiry is None
                &&& r.message@ == "Operando com cache local de licenciamento."@
                &&& r.block_reason is None
                &&& r.company_name@ == settings.company_name@
                &&& r.company_document@ == digits(settings.company_document@)
                &&& r.machine_key@ == settings.machine_key@
                &&& r.status_code == 0
                &&& r.local_license is None && r.licensed_company is None && r.licensed_device is None
            },
        },
{
    match cached {
        Some(snapshot) => {
            let mut runtime = snapshot.runtime_status;
            runtime.online = online;
            runtime.technical_message = str_to_string(technical_message);
            runtime
        },
        None => LicenseRuntimeStatus {
            online,
            allowed: true,
            blocked: false,
            machine_registered: false,
            machine_blocked: false,
            seats_total: 0,
            seats_used: 0,
            expiry: None,
            message: str_to_string("Operando com cache local de licenciamento."),
            block_reason: None,
            technical_message: str_to_string(technical_message),
            company_name: copy_string(&settings.company_name),
            company_document: only_digits(settings.company_document.as_str()),
            machine_key: copy_string(&settings.machine_key),
            status_code: 0,
            local_license: None,
            licensed_company: None,
            licensed_device: None,
        },
    }
}

pub open spec fn payload_text_or(
    p: Option<crate::license_domain::LocalLicenseDocument>,
    f: spec_fn(crate::license_domain::LocalLicenseDocument) -> Seq<char>,
    d: Seq<char>,
) -> Seq<char> {
    match p {
        Some(x) => if trim(f(x)).len() > 0 {
            f(x)
        } else {
            d
        },
        None => d,
    }
}

/// The runtime status of a validated local license: allowed offline, the
/// license's company, document and machine (the settings' when blank), its
/// seats (one when it gives none) and expiry, and this machine's details.
pub open spec fn runtime_from_local(
    r: LicenseRuntimeStatus,
    validation: LocalLicenseValidationResult,
    settings: LicenseSettings,
    device: DeviceCollectedInfo,
    app_version: Seq<char>,
) -> bool {
    let p = validation.payload;
    let company_name = payload_text_or(p, |x: crate::license_domain::LocalLicenseDocument| x.company_name@, settings.company_name@);
    let company_document = payload_text_or(p, |x: crate::license_domain::LocalLicenseDocument| x.company_document@, settings.company_document@);
    let machine_key = payload_text_or(p, |x: crate::license_domain::LocalLicenseDocument| x.machine_key@, settings.machine_key@);
    let seats: u32 = match p {
        Some(x) => match x.requested_licenses {
            Some(n) => n,
            None => 1,
        },
        None => 1,
    };
    let expiry = match p {
        Some(x) => opt_view(x.expires_at),
        None => None,
    };
    &&& !r.online && r.allowed && !r.blocked && r.machine_registered && !r.machine_blocked
    &&& r.seats_total == seats && r.seats_used == 1
    &&& opt_view(r.expiry) == expiry
    &&& r.message@ == validation.message@
    &&& r.block_reason is None
    &&& r.technical_message@ == "source=local-license | reason="@ + validation.reason_code@ + " | file="@
        + opt_or_empty(validation.file_path) + " | otpauth="@ + opt_or_empty(validation.otpauth_uri)
    &&& r.company_name@ == company_name
    &&& r.company_document@ == company_document
    &&& r.machine_key@ == machine_key
    &&& r.status_code == 1
    &&& r.local_license matches Some(l) && {
        &&& l.empresa@ == company_name
        &&& l.cnpj@ == company_document
        &&& l.serial@ == match p { Some(x) => x.serial_number@, None => seq![] }
        &&& l.licencas@ == crate::text::decimal(seats as nat)
        &&& l.ativo && l.app && l.terminal_ativo
        &&& l.serial_key@ == machine_key
        &&& l.usadas == 1
    }
    &&& r.licensed_company matches Some(c) && {
        &&& c.cnpj@ == company_document
        &&& c.emp_nomefantasia@ == company_name
        &&& c.razaosocial@ == company_name
        &&& c.emp_email@ == match p { Some(x) => x.company_email@, None => seq![] }
        &&& c.emp_serie@ == settings.app_instance@
        &&& c.ativo && !c.bloqueado
        &&& c.n_maquinas == seats as i64
        &&& c.data_val_lic@ == match expiry { Some(e) => e, None => seq![] }
        &&& c.emp_obs@ == "licença local validada"@
    }
    &&& r.licensed_device matches Some(d) && {
        &&& d.cnpj@ == company_document
        &&& d.chave@ == machine_key
        &&& d.nome@ == company_name
        &&& !d.bloqueado
        &&& d.modulos@ == settings.app_instance@
        &&& d.nome_compu@ == device.computer_name@
        &&& d.prog_acesso@ == device.logged_user@
        &&& d.cod_ace_remoto@ == device.domain_name@
        &&& d.versaoexe@ == app_version
        &&& d.sistema_operacional@ == join(
            present_parts(seq![Some(device.os_name@), Some(device.os_version@), Some(device.os_arch@)]),
            " | "@,
        )
        &&& d.tipo@ == device.install_mode@
        &&& d.observacao@ == "licença local"@
        &&& d.tecnico_instalacao@ == device.logged_user@
        &&& d.serial_number@ == match p { Some(x) => x.serial_number@, None => device.serial_number@ }
        &&& d.hostname@ == device.hostname@
        &&& d.station_name@ == match p { Some(x) => x.station_name@, None => device.station_name@ }
        &&& d.machine_guid@ == device.machine_guid@
        &&& d.bios_serial@ == device.bios_serial@
        &&& d.motherboard_serial@ == device.motherboard_serial@
        &&& d.full_device_name@ == display_name_of(device)
    }
}

fn payload_or(value: &String, fallback: &String) -> (r: String)
    ensures
        r@ == if trim(value@).len() > 0 {
            value@
        } else {
            fallback@
        },
{
    if crate::text::is_blank_str(value.as_str()) {
        copy_string(fallback)
    } else {
        copy_string(value)
    }
}

pub fn map_local_license_validation_to_runtime(
    validation: &LocalLicenseValidationResult,
    settings: &LicenseSettings,
    device: &DeviceCollectedInfo,
    app_version: &str,
) -> (r: LicenseRuntimeStatus)
    ensures
        runtime_from_local(r, *validation, *settings, *device, app_version@),
{
    let (company_name, company_document, machine_key, seats_total, serial, email, station, expiry) =
        match &validation.payload {
        Some(p) => (
            payload_or(&p.company_name, &settings.company_name),
            payload_or(&p.company_document, &settings.company_document),
            payload_or(&p.machine_key, &settings.machine_key),
            match p.requested_licenses {
                Some(n) => n,
                None => 1,
            },
            Some(copy_string(&p.serial_number)),
            copy_string(&p.company_email),
            Some(copy_string(&p.station_name)),
            opt_string_clone(&p.expires_at),
        ),
        None => (
            copy_string(&settings.company_name),
            copy_string(&settings.company_document),
            copy_string(&settings.machine_key),
            1u32,
            None,
            String::new(),
            None,
            None,
        ),
    };
    let mut local_license = LocalLicense::default();
    local_license.empresa = copy_string(&company_name);
    local_license.cnpj = copy_string(&company_document);
    local_license.serial = match &serial {
        Some(v) => copy_string(v),
        None => String::new(),
    };
    local_license.licencas = crate::text::decimal_string(seats_total as u64);
    local_license.ativo = true;
    local_license.app = true;
    local_license.terminal_ativo = true;
    local_license.serial_key = copy_string(&machine_key);
    local_license.usadas = 1;
    let mut licensed_company = LicensedCompany::default();
    licensed_company.cnpj = copy_string(&company_document);
    licensed_company.emp_nomefantasia = copy_string(&company_name);
    licensed_company.razaosocial = copy_string(&company_name);
    licensed_company.emp_email = email;
    licensed_company.emp_serie = copy_string(&settings.app_instance);
    licensed_company.ativo = true;
    licensed_company.bloqueado = false;
    licensed_company.n_maquinas = seats_total as i64;
    licensed_company.data_val_lic = crate::text::opt_text_or_empty(&expiry);
    licensed_company.emp_obs = str_to_string("licença local validada");
    let mut licensed_device = LicensedDevice::default();
    licensed_device.cnpj = copy_string(&company_document);
    licensed_device.chave = copy_string(&machine_key);
    licensed_device.nome = copy_string(&company_name);
    licensed_device.bloqueado = false;
    licensed_device.modulos = copy_string(&settings.app_instance);
    licensed_device.nome_compu = copy_string(&device.computer_name);
    licensed_device.prog_acesso = copy_string(&device.logged_user);
    licensed_device.cod_ace_remoto = copy_string(&device.domain_name);
    licensed_device.versaoexe = str_to_string(app_version);
    licensed_device.sistema_operacional = full_os_name(
        Some(device.os_name.as_str()),
        Some(device.os_version.as_str()),
        Some(device.os_arch.as_str()),
    );
    licensed_device.tipo = copy_string(&device.install_mode);
    licensed_device.observacao = str_to_string("licença local");
    licensed_device.tecnico_instalacao = copy_string(&device.logged_user);
    licensed_device.serial_number = match &serial {
        Some(v) => copy_string(v),
        None => copy_string(&device.serial_number),
    };
    licensed_device.hostname = copy_string(&device.hostname);
    licensed_device.station_name = match &station {
        Some(v) => copy_string(v),
        None => copy_string(&device.station_name),
    };
    licensed_device.machine_guid = copy_string(&device.machine_guid);
    licensed_device.bios_serial = copy_string(&device.bios_serial);
    licensed_device.motherboard_serial = copy_string(&device.motherboard_serial);
    licensed_device.full_device_name = full_device_name(
        Some(device.station_name.as_str()),
        Some(device.computer_name.as_str()),
        Some(device.hostname.as_str()),
    );
    let mut tech = chars_of("source=local-license | reason=");
    append_chars(&mut tech, &chars_of_string(&validation.reason_code));
    append_str(&mut tech, " | file=");
    append_chars(&mut tech, &chars_of_string(&crate::text::opt_text_or_empty(&validation.file_path)));
    append_str(&mut tech, " | otpauth=");
    append_chars(
        &mut tech,
        &chars_of_string(&crate::text::opt_text_or_empty(&validation.otpauth_uri)),
    );
    LicenseRuntimeStatus {
        online: false,
        allowed: true,
        blocked: false,
        machine_registered: true,
        machine_blocked: false,
        seats_total,
        seats_used: 1,
        expiry,
        message: copy_string(&validation.message),
        block_reason: None,
        technical_message: string_of(&tech),
        company_name,
        company_document,
        machine_key,
        status_code: 1,
        local_license: Some(local_license),
        licensed_company: Some(licensed_company),
        licensed_device: Some(licensed_device),
    }
}

} // verus!
