//! The installments written into SPED files: how a note's total is split,
//! when each installment falls due, and the `C140`/`C141` records built
//! from them.  Amounts are in cents.
use vstd::prelude::*;

use crate::calendar::{date_timestamp, day_timestamp, move_date, moved_date, valid_ymd};
use crate::faturas::{meta_view, MetaView, NfeFaturasSettings, NfeMeta};
use crate::faturas_index::{cents_or_zero, compute_total_from_meta, meta_total, money_bound, signed_of};
use crate::faturas_sped::{index_of_key, lookup};
use crate::faturas_text::{br_date, date_digits, ddmmyyyy_to_digits, digits_to_br_date};
use crate::legacy_import::parse_i32;
use crate::money::{parse_money, two_digits};
use crate::numbers::{digit_value, parse_nat, parse_u64, parse_u64_chars};
use crate::text::{
    append_chars, append_str, chars_eq, chars_of, copy_string, decimal, decimal_chars, digits, is_blank,
    is_blank_chars, is_digit, is_ws, is_ws_char, lines_chars, lines_of, only_digits_chars, split_on,
    split_chars, str_eq, string_of, trim, trim_chars, utf8_len, utf8_width, utf8_width_of, zero_pad,
    zero_pad_chars,
};
use crate::numbers::{text_lt, text_lt_chars};

verus! {

broadcast use vstd::string::group_string_axioms;

// ---------------------------------------------------------------------------
// Dates as eight digits
// ---------------------------------------------------------------------------

/// Day, month and year of eight digits `DDMMYYYY`.
pub open spec fn date_fields(d: Seq<char>) -> (int, int, int) {
    (
        (digit_value(d[0]) * 10 + digit_value(d[1])) as int,
        (digit_value(d[2]) * 10 + digit_value(d[3])) as int,
        (((digit_value(d[4]) * 10 + digit_value(d[5])) * 10 + digit_value(d[6])) * 10 + digit_value(d[7])) as int,
    )
}

/// The Unix time of a date written with eight digits, if it exists.
pub open spec fn br_time(value: Seq<char>) -> Option<i64> {
    let d = digits(value);
    if d.len() != 8 {
        None
    } else {
        let (dd, mm, yy) = date_fields(d);
        if valid_ymd(yy, mm, dd) {
            Some(day_timestamp(yy as i32, mm as u32, dd as u32))
        } else {
            None
        }
    }
}

/// A date written with eight digits moved by some days, as `DDMMYYYY`; the
/// empty text where there is no such date.
pub open spec fn moved_text(value: Seq<char>, days: i64) -> Seq<char> {
    let d = digits(value);
    if d.len() != 8 {
        seq![]
    } else {
        let (dd, mm, yy) = date_fields(d);
        if !valid_ymd(yy, mm, dd) {
            seq![]
        } else {
            match moved_date(yy as i32, mm as u32, dd as u32, days) {
                Some(t) => t,
                None => seq![],
            }
        }
    }
}

fn digit_of(c: char) -> (r: u32)
    requires
        is_digit(c),
    ensures
        r == digit_value(c),
{
    c as u32 - 48
}

fn fields_of_digits(d: &Vec<char>) -> (r: (u32, u32, i32))
    requires
        d@.len() == 8,
        forall|k: int| 0 <= k < 8 ==> is_digit(#[trigger] d@[k]),
    ensures
        (r.2 as int, r.1 as int, r.0 as int) == (date_fields(d@).2, date_fields(d@).1, date_fields(d@).0),
{
    let day = digit_of(d[0]) * 10 + digit_of(d[1]);
    let month = digit_of(d[2]) * 10 + digit_of(d[3]);
    let year = ((digit_of(d[4]) * 10 + digit_of(d[5])) * 10 + digit_of(d[6])) * 10 + digit_of(d[7]);
    (day, month, year as i32)
}

/// The Unix time of a date written with eight digits (see `br_time`).
pub fn br_date_to_time(value: &str) -> (r: Option<i64>)
    ensures
        r == br_time(value@),
{
    let d = only_digits_chars(&chars_of(value));
    if d.len() != 8 {
        return None;
    }
    proof {
        crate::text::lemma_digits_len(value@);
    }
    let (day, month, year) = fields_of_digits(&d);
    date_timestamp(year, month, day)
}

/// Moves a date written with eight digits by some days (see `moved_text`).
pub fn add_days_to_dig_date(value: &str, days: i64) -> (r: String)
    ensures
        r@ == moved_text(value@, days),
{
    let d = only_digits_chars(&chars_of(value));
    if d.len() != 8 {
        return String::new();
    }
    proof {
        crate::text::lemma_digits_len(value@);
    }
    let (day, month, year) = fields_of_digits(&d);
    match move_date(year, month, day, days) {
        Some(s) => s,
        None => String::new(),
    }
}

// ---------------------------------------------------------------------------
// Options
// ---------------------------------------------------------------------------

/// A line `CNPJ=QTD` of the per-supplier rules: the document and the
/// number of installments, when both are valid.
pub open spec fn supplier_rule(line: Seq<char>) -> Option<(Seq<char>, nat)> {
    let parts = split_on(line, '=');
    if parts.len() < 2 {
        None
    } else {
        let cnpj = digits(parts[0]);
        let qtd: nat = match parse_nat(digits(parts[1])) {
            Some(n) => if n <= usize::MAX {
                n
            } else {
                0
            },
            None => 0,
        };
        if (cnpj.len() == 11 || cnpj.len() == 14) && qtd > 0 {
            Some((cnpj, qtd))
        } else {
            None
        }
    }
}

/// The index of a key among pairs, or -1.
pub open spec fn rule_index(s: Seq<(Seq<char>, nat)>, key: Seq<char>, j: int) -> int
    decreases s.len() - j,
{
    if j < 0 || j >= s.len() {
        -1
    } else if s[j].0 == key {
        j
    } else {
        rule_index(s, key, j + 1)
    }
}

/// The per-supplier rules, the last line of each document kept.
pub open spec fn supplier_rules(lines: Seq<Seq<char>>) -> Seq<(Seq<char>, nat)>
    decreases lines.len(),
{
    if lines.len() == 0 {
        seq![]
    } else {
        let r = supplier_rules(lines.drop_last());
        match supplier_rule(lines.last()) {
            Some(e) => {
                let k = rule_index(r, e.0, 0);
                if k >= 0 {
                    r.update(k, e)
                } else {
                    r.push(e)
                }
            },
            None => r,
        }
    }
}

pub open spec fn rules_view(v: Seq<(String, usize)>) -> Seq<(Seq<char>, nat)> {
    v.map_values(|p: (String, usize)| (p.0@, p.1 as nat))
}

proof fn lemma_rule_index(s: Seq<(Seq<char>, nat)>, key: Seq<char>, j: int, k: int)
    requires
        0 <= j <= k < s.len(),
        s[k].0 == key,
        forall|i: int| j <= i < k ==> s[i].0 != key,
    ensures
        rule_index(s, key, j) == k,
    decreases k - j,
{
    if j < k {
        lemma_rule_index(s, key, j + 1, k);
    }
}

proof fn lemma_rule_index_none(s: Seq<(Seq<char>, nat)>, key: Seq<char>, j: int)
    requires
        0 <= j,
        forall|i: int| j <= i < s.len() ==> s[i].0 != key,
    ensures
        rule_index(s, key, j) == -1,
    decreases s.len() - j,
{
    if j < s.len() {
        lemma_rule_index_none(s, key, j + 1);
    }
}

/// The number of installments per supplier, from lines `CNPJ=QTD`.
pub fn parse_parcelas_por_fornecedor(raw: &str) -> (r: Vec<(String, usize)>)
    ensures
        rules_view(r@) == supplier_rules(lines_of(raw@)),
{
    let v = chars_of(raw);
    let lines = lines_chars(&v);
    let ghost lv = lines_of(raw@);
    let mut out: Vec<(String, usize)> = Vec::new();
    for i in 0..lines.len()
        invariant
            lines@.len() == lv.len(),
            forall|k: int| 0 <= k < lines@.len() ==> (#[trigger] lines@[k])@ == lv[k],
            rules_view(out@) == supplier_rules(lv.take(i as int)),
    {
        proof {
            assert(lv.take(i + 1).drop_last() =~= lv.take(i as int));
            assert(lv.take(i + 1).last() == lines@[i as int]@);
        }
        let parts = split_chars(&lines[i], '=');
        if parts.len() >= 2 {
            let cnpj = only_digits_chars(&parts[0]);
            let qd = only_digits_chars(&parts[1]);
            let qtd: usize = match parse_u64_chars(&qd) {
                Some(n) => {
                    if n <= usize::MAX as u64 {
                        n as usize
                    } else {
                        0
                    }
                },
                None => 0,
            };
            proof {
                match parse_nat(qd@) {
                    Some(n) => {
                        if n <= u64::MAX {
                            assert(parse_u64(qd@) == Some(n as u64));
                        }
                    },
                    None => {},
                }
            }
            if (cnpj.len() == 11 || cnpj.len() == 14) && qtd > 0 {
                let ghost rv = rules_view(out@);
                let ghost e = (cnpj@, qtd as nat);
                let mut found: Option<usize> = None;
                let mut k: usize = 0;
                while k < out.len()
                    invariant
                        rv == rules_view(out@),
                        k <= out@.len(),
                        found is None ==> forall|j: int| 0 <= j < k ==> rv[j].0 != cnpj@,
                        found matches Some(f) ==> f < out@.len() && rv[f as int].0 == cnpj@ && forall|j: int|
                            0 <= j < f ==> rv[j].0 != cnpj@,
                    decreases out@.len() - k,
                {
                    if found.is_none() && chars_eq(&chars_of(out[k].0.as_str()), &cnpj) {
                        found = Some(k);
                    }
                    k = k + 1;
                }
                match found {
                    Some(f) => {
                        proof {
                            lemma_rule_index(rv, cnpj@, 0, f as int);
                        }
                        out.set(f, (string_of(&cnpj), qtd));
                        proof {
                            assert(rules_view(out@) =~= rv.update(f as int, e));
                        }
                    },
                    None => {
                        proof {
                            lemma_rule_index_none(rv, cnpj@, 0);
                        }
                        out.push((string_of(&cnpj), qtd));
                        proof {
                            assert(rules_view(out@) =~= rv.push(e));
                        }
                    },
                }
            }
        }
    }
    proof {
        assert(lv.take(lines@.len() as int) =~= lv);
    }
    out
}

pub open spec fn day_sep(c: char) -> bool {
    c == ',' || c == ';' || is_ws(c)
}

/// The pieces of `s` between commas, semicolons and white space.
pub open spec fn split_days(s: Seq<char>) -> Seq<Seq<char>>
    decreases s.len(),
{
    if s.len() == 0 {
        seq![seq![]]
    } else {
        let r = split_days(s.drop_last());
        if day_sep(s.last()) {
            r.push(seq![])
        } else {
            r.update(r.len() - 1, r.last().push(s.last()))
        }
    }
}

proof fn lemma_split_days_nonempty(s: Seq<char>)
    ensures
        split_days(s).len() >= 1,
    decreases s.len(),
{
    if s.len() > 0 {
        lemma_split_days_nonempty(s.drop_last());
    }
}

/// The numbers of days, zero or more, of the pieces that hold one.
pub open spec fn day_numbers(ps: Seq<Seq<char>>) -> Seq<i32>
    decreases ps.len(),
{
    if ps.len() == 0 {
        seq![]
    } else {
        let r = day_numbers(ps.drop_last());
        match parse_i32(trim(ps.last())) {
            Some(v) => if v >= 0 {
                r.push(v)
            } else {
                r
            },
            None => r,
        }
    }
}

/// The days after the base date of each installment, from a list.
pub fn parse_dias_por_parcela(raw: &str) -> (r: Vec<i32>)
    ensures
        r@ == day_numbers(split_days(raw@)),
{
    let v = chars_of(raw);
    let mut done: Vec<Vec<char>> = Vec::new();
    let mut cur: Vec<char> = Vec::new();
    for i in 0..v.len()
        invariant
            split_days(v@.take(i as int)).len() == done@.len() + 1,
            forall|k: int| 0 <= k < done@.len() ==> (#[trigger] done@[k])@ == split_days(v@.take(i as int))[k],
            cur@ == split_days(v@.take(i as int)).last(),
    {
        proof {
            assert(v@.take(i + 1).drop_last() =~= v@.take(i as int));
            lemma_split_days_nonempty(v@.take(i as int));
        }
        let c = v[i];
        if c == ',' || c == ';' || is_ws_char(c) {
            done.push(cur);
            cur = Vec::new();
        } else {
            cur.push(c);
        }
    }
    proof {
        assert(v@.take(v.len() as int) =~= v@);
    }
    done.push(cur);
    let ghost ps = split_days(raw@);
    let mut out: Vec<i32> = Vec::new();
    for i in 0..done.len()
        invariant
            done@.len() == ps.len(),
            forall|k: int| 0 <= k < done@.len() ==> (#[trigger] done@[k])@ == ps[k],
            out@ == day_numbers(ps.take(i as int)),
    {
        proof {
            assert(ps.take(i + 1).drop_last() =~= ps.take(i as int));
            assert(ps.take(i + 1).last() == done@[i as int]@);
        }
        let t = trim_chars(&done[i]);
        match crate::legacy_import::parse_i32_chars(&t) {
            Some(n) => {
                if n >= 0 {
                    out.push(n);
                }
            },
            None => {},
        }
    }
    proof {
        assert(ps.take(done@.len() as int) =~= ps);
    }
    out
}

/// The options the settings give: the installment mode, the general
/// number of installments, the per-supplier numbers, the interval, the days
/// of each installment, the rule for notes without installments and the
/// consolidation mode.
pub open spec fn options_of(s: NfeFaturasSettings) -> (Seq<char>, nat, Seq<(Seq<char>, nat)>, i32, Seq<i32>, Seq<char>, Seq<char>) {
    (
        s.sel_modo_parcelas@,
        if s.num_qtd_parcelas_geral > 1 {
            s.num_qtd_parcelas_geral as nat
        } else {
            1
        },
        supplier_rules(lines_of(s.txt_regras_fornecedor_parcelas@)),
        if s.chk_venc30 {
            30
        } else {
            s.num_venc_intervalo_dias
        },
        day_numbers(split_days(s.txt_venc_dias_por_parcela@)),
        if s.chk_incluir_sem_dup {
            "gerar"@
        } else {
            "nao_gerar"@
        },
        s.sel_consolidacao_interna_nfe@,
    )
}

/// How the SPED export builds installments.
pub struct SpedExportOptions {
    pub recriar: bool,
    pub modo_parcelas: String,
    pub qtd_parcelas_geral: usize,
    pub regras_fornecedor: Vec<(String, usize)>,
    pub intervalo_dias: i32,
    pub dias_por_parcela: Vec<i32>,
    pub regra_sem_dup: String,
    pub consolidacao_interna: String,
}

impl SpedExportOptions {
    /// The options of the settings.
    pub fn from_settings(settings: &NfeFaturasSettings) -> (r: SpedExportOptions)
        ensures
            r.recriar == settings.chk_recriar_c140_c141,
            r.modo_parcelas@ == settings.sel_modo_parcelas@,
            r.qtd_parcelas_geral == if settings.num_qtd_parcelas_geral > 1 {
                settings.num_qtd_parcelas_geral as usize
            } else {
                1
            },
            rules_view(r.regras_fornecedor@) == supplier_rules(lines_of(settings.txt_regras_fornecedor_parcelas@)),
            r.intervalo_dias == if settings.chk_venc30 {
                30
            } else {
                settings.num_venc_intervalo_dias
            },
            r.dias_por_parcela@ == day_numbers(split_days(settings.txt_venc_dias_por_parcela@)),
            r.regra_sem_dup@ == if settings.chk_incluir_sem_dup {
                "gerar"@
            } else {
                "nao_gerar"@
            },
            r.consolidacao_interna@ == settings.sel_consolidacao_interna_nfe@,
    {
        SpedExportOptions {
            recriar: settings.chk_recriar_c140_c141,
            modo_parcelas: copy_string(&settings.sel_modo_parcelas),
            qtd_parcelas_geral: if settings.num_qtd_parcelas_geral > 1 {
                settings.num_qtd_parcelas_geral as usize
            } else {
                1
            },
            regras_fornecedor: parse_parcelas_por_fornecedor(settings.txt_regras_fornecedor_parcelas.as_str()),
            intervalo_dias: if settings.chk_venc30 {
                30
            } else {
                settings.num_venc_intervalo_dias
            },
            dias_por_parcela: parse_dias_por_parcela(settings.txt_venc_dias_por_parcela.as_str()),
            regra_sem_dup: if settings.chk_incluir_sem_dup {
                crate::text::str_to_string("gerar")
            } else {
                crate::text::str_to_string("nao_gerar")
            },
            consolidacao_interna: copy_string(&settings.sel_consolidacao_interna_nfe),
        }
    }
}


// ---------------------------------------------------------------------------
// Installments
// ---------------------------------------------------------------------------

/// An installment: its number, its due date and its amount in cents.
pub type ParcelaV = (Seq<char>, Seq<char>, int);

/// Division rounded towards zero, as on machine integers.
pub open spec fn tdiv(a: int, b: int) -> int {
    if a >= 0 {
        a / b
    } else {
        -((-a) / b)
    }
}

/// A total split into `qtd` (at least one) equal installments, the
/// remainder on the last.
pub open spec fn split_total(total: int, qtd: nat) -> Seq<int> {
    let q: nat = if qtd == 0 {
        1
    } else {
        qtd
    };
    let base = tdiv(total, q as int);
    Seq::new((q - 1) as nat, |i: int| base).push(base + (total - base * q))
}

pub open spec fn abs(x: int) -> int {
    if x < 0 {
        -x
    } else {
        x
    }
}

pub open spec fn abs_total(s: Seq<int>) -> int
    decreases s.len(),
{
    if s.len() == 0 {
        0
    } else {
        abs_total(s.drop_last()) + abs(s.last())
    }
}

pub open spec fn parcel_values(ps: Seq<ParcelaV>) -> Seq<int> {
    ps.map_values(|p: ParcelaV| p.2)
}

/// The sum of a sequence of amounts.
pub open spec fn sum_of(s: Seq<int>) -> int
    decreases s.len(),
{
    if s.len() == 0 {
        0
    } else {
        sum_of(s.drop_last()) + s.last()
    }
}

proof fn lemma_sum_const(n: nat, c: int)
    ensures
        sum_of(Seq::new(n, |i: int| c)) == n * c,
    decreases n,
{
    if n > 0 {
        assert(Seq::new(n, |i: int| c).drop_last() =~= Seq::new((n - 1) as nat, |i: int| c));
        lemma_sum_const((n - 1) as nat, c);
        assert((n - 1) * c + c == n * c) by (nonlinear_arith);
    } else {
        assert(n * c == 0) by (nonlinear_arith)
            requires
                n == 0,
        ;
    }
}

/// Splitting a total into installments loses nothing: there are as many
/// installments as asked (at least one), they add up to the total, and all
/// but the last are equal.
pub proof fn law_split_total_adds_up(total: int, qtd: nat)
    ensures
        split_total(total, qtd).len() == if qtd == 0 {
            1
        } else {
            qtd
        },
        sum_of(split_total(total, qtd)) == total,
        forall|i: int| 0 <= i < split_total(total, qtd).len() - 1 ==> #[trigger] split_total(total, qtd)[i] == split_total(total, qtd)[0],
{
    let q: nat = if qtd == 0 {
        1
    } else {
        qtd
    };
    let base = tdiv(total, q as int);
    let body = Seq::new((q - 1) as nat, |i: int| base);
    let s = split_total(total, qtd);
    lemma_sum_const((q - 1) as nat, base);
    assert(s.drop_last() =~= body);
    assert(sum_of(s) == (q - 1) * base + base + (total - base * q));
    assert((q - 1) * base + base == base * q) by (nonlinear_arith);
}

proof fn lemma_abs_total_const(n: nat, c: int)
    ensures
        abs_total(Seq::new(n, |i: int| c)) == n * abs(c),
    decreases n,
{
    if n > 0 {
        assert(Seq::new(n, |i: int| c).drop_last() =~= Seq::new((n - 1) as nat, |i: int| c));
        assert(Seq::new(n, |i: int| c).last() == c);
        lemma_abs_total_const((n - 1) as nat, c);
        assert((n - 1) * abs(c) + abs(c) == n * abs(c)) by (nonlinear_arith);
    } else {
        assert(n * abs(c) == 0) by (nonlinear_arith)
            requires
                n == 0,
        ;
    }
}

proof fn lemma_split_total(total: int, qtd: nat)
    ensures
        split_total(total, qtd).len() == if qtd == 0 {
            1
        } else {
            qtd
        },
        abs_total(split_total(total, qtd)) == abs(total),
{
    let q: nat = if qtd == 0 {
        1
    } else {
        qtd
    };
    let base = tdiv(total, q as int);
    let body = Seq::new((q - 1) as nat, |i: int| base);
    lemma_abs_total_const((q - 1) as nat, base);
    let s = split_total(total, qtd);
    assert(s.drop_last() =~= body);
    assert(s.last() == base + (total - base * q));
    if total >= 0 {
        let b = total / (q as int);
        assert(b * q <= total && total - b * q < q && b >= 0) by (nonlinear_arith)
            requires
                b == total / (q as int),
                q >= 1,
                total >= 0,
        ;
        assert(base == b);
        assert((q - 1) * b + (b + (total - b * q)) == total) by (nonlinear_arith);
    } else {
        let n = -total;
        let b2 = n / (q as int);
        assert(b2 * q <= n && b2 >= 0) by (nonlinear_arith)
            requires
                b2 == n / (q as int),
                q >= 1,
                n > 0,
        ;
        assert(base == -b2);
        assert(base * q == -(b2 * q)) by (nonlinear_arith)
            requires
                base == -b2,
        ;
        assert((q - 1) * b2 + (b2 + (n - b2 * q)) == n) by (nonlinear_arith);
    }
}

/// The installments of a note before their due dates are set.
pub open spec fn base_parcels(
    m: MetaView,
    modo: Seq<char>,
    qtd_geral: nat,
    regras: Seq<(Seq<char>, nat)>,
    regra_sem_dup: Seq<char>,
) -> Seq<ParcelaV> {
    let total = meta_total(m);
    if modo == "respeitar_xml"@ {
        if m.1.len() > 0 {
            let b0 = m.1.map_values(
                |d: (Seq<char>, Seq<char>, Seq<char>)| (d.0, br_date(date_digits(d.1)), cents_or_zero(d.2)),
            );
            if !(exists|k: int| 0 <= k < b0.len() && b0[k].2 > 0) && total > 0 {
                let sp = split_total(total, b0.len());
                Seq::new(b0.len(), |k: int| (b0[k].0, b0[k].1, sp[k]))
            } else {
                b0
            }
        } else if regra_sem_dup == "gerar"@ {
            seq![(m.0.1, seq![], total)]
        } else {
            seq![]
        }
    } else {
        let k = rule_index(regras, m.2.2, 0);
        let q: nat = if modo == "forcar_por_fornecedor"@ && k >= 0 {
            regras[k].1
        } else {
            qtd_geral
        };
        split_total(total, q).map_values(|v: int| (seq![], seq![], v))
    }
}

/// The days after the base date of the installment at `idx`: from the
/// list, else the interval times the installment's number.
pub open spec fn days_for(idx: int, intervalo: i32, dias: Seq<i32>) -> int {
    if idx < dias.len() {
        dias[idx] as int
    } else {
        intervalo * ((idx as i32) + 1)
    }
}

/// The due date of an installment: its own, else the base date (entry,
/// else document date) moved by its days.
pub open spec fn due_date(p: ParcelaV, idx: int, intervalo: i32, dias: Seq<i32>, dt_doc: Seq<char>, dt_es: Seq<char>) -> Seq<char> {
    if p.1.len() > 0 {
        date_digits(p.1)
    } else {
        let base = if digits(dt_es).len() == 8 {
            dt_es
        } else {
            dt_doc
        };
        if digits(base).len() != 8 {
            seq![]
        } else {
            moved_text(base, days_for(idx, intervalo, dias) as i64)
        }
    }
}

/// The installments with a valid due date, dated.
pub open spec fn dated_parcels(
    ps: Seq<ParcelaV>,
    n: int,
    intervalo: i32,
    dias: Seq<i32>,
    dt_doc: Seq<char>,
    dt_es: Seq<char>,
) -> Seq<ParcelaV>
    decreases n,
{
    if n <= 0 {
        seq![]
    } else {
        let r = dated_parcels(ps, n - 1, intervalo, dias, dt_doc, dt_es);
        let v = due_date(ps[n - 1], n - 1, intervalo, dias, dt_doc, dt_es);
        if digits(v).len() == 8 {
            r.push((ps[n - 1].0, v, ps[n - 1].2))
        } else {
            r
        }
    }
}

pub open spec fn parcel_sum(ps: Seq<ParcelaV>) -> int
    decreases ps.len(),
{
    if ps.len() == 0 {
        0
    } else {
        parcel_sum(ps.drop_last()) + ps.last().2
    }
}

/// The first installment with a due date, else the first.
pub open spec fn first_dated(ps: Seq<ParcelaV>, j: int) -> int
    decreases ps.len() - j,
{
    if j < 0 || j >= ps.len() {
        0
    } else if ps[j].1.len() > 0 {
        j
    } else {
        first_dated(ps, j + 1)
    }
}

/// The index of a due date among grouped installments, or -1.
pub open spec fn date_index(g: Seq<(Seq<char>, int)>, d: Seq<char>, j: int) -> int
    decreases g.len() - j,
{
    if j < 0 || j >= g.len() {
        -1
    } else if g[j].0 == d {
        j
    } else {
        date_index(g, d, j + 1)
    }
}

/// Where a new due date goes among grouped installments: before the first
/// later date.
pub open spec fn date_slot(g: Seq<(Seq<char>, int)>, d: Seq<char>, j: int) -> int
    decreases g.len() - j,
{
    if j < 0 || j >= g.len() {
        g.len() as int
    } else if text_lt(d, g[j].0) {
        j
    } else {
        date_slot(g, d, j + 1)
    }
}

/// The amounts summed by due date, in the order of the dates.
pub open spec fn by_date(ps: Seq<ParcelaV>) -> Seq<(Seq<char>, int)>
    decreases ps.len(),
{
    if ps.len() == 0 {
        seq![]
    } else {
        let g = by_date(ps.drop_last());
        let p = ps.last();
        let k = date_index(g, p.1, 0);
        if k >= 0 {
            g.update(k, (g[k].0, g[k].1 + p.2))
        } else {
            g.insert(date_slot(g, p.1, 0), (p.1, p.2))
        }
    }
}

/// The installments after the note's consolidation mode: one installment
/// with the whole amount, one per due date, or unchanged.
pub open spec fn normalized_parcels(ps: Seq<ParcelaV>, mode: Seq<char>) -> Seq<ParcelaV> {
    if ps.len() == 0 {
        ps
    } else if mode == "reduzir_para_1_parcela"@ {
        let f = ps[first_dated(ps, 0)];
        seq![(f.0, f.1, parcel_sum(ps))]
    } else if mode == "agrupar_por_data"@ {
        by_date(ps).map_values(|e: (Seq<char>, int)| (seq![], e.0, e.1))
    } else {
        ps
    }
}

pub open spec fn parcel_bound() -> int {
    0x200_0000_0000_0000_0000_0000_0000_0000
}

proof fn lemma_abs_total_push(s: Seq<int>, x: int)
    ensures
        abs_total(s.push(x)) == abs_total(s) + abs(x),
{
    assert(s.push(x).drop_last() =~= s);
}

proof fn lemma_abs_total_update(s: Seq<int>, k: int, x: int)
    requires
        0 <= k < s.len(),
    ensures
        abs_total(s.update(k, x)) == abs_total(s) - abs(s[k]) + abs(x),
    decreases s.len(),
{
    if k == s.len() - 1 {
        assert(s.update(k, x).drop_last() =~= s.drop_last());
    } else {
        assert(s.update(k, x).drop_last() =~= s.drop_last().update(k, x));
        lemma_abs_total_update(s.drop_last(), k, x);
    }
}

proof fn lemma_abs_total_insert(s: Seq<int>, p: int, x: int)
    requires
        0 <= p <= s.len(),
    ensures
        abs_total(s.insert(p, x)) == abs_total(s) + abs(x),
    decreases s.len(),
{
    if p == s.len() {
        assert(s.insert(p, x) =~= s.push(x));
        lemma_abs_total_push(s, x);
    } else {
        assert(s.insert(p, x).drop_last() =~= s.drop_last().insert(p, x));
        assert(s.insert(p, x).last() == s.last());
        lemma_abs_total_insert(s.drop_last(), p, x);
    }
}

proof fn lemma_abs_sum(ps: Seq<ParcelaV>)
    ensures
        abs(parcel_sum(ps)) <= abs_total(parcel_values(ps)),
    decreases ps.len(),
{
    if ps.len() > 0 {
        lemma_abs_sum(ps.drop_last());
        assert(parcel_values(ps).drop_last() =~= parcel_values(ps.drop_last()));
    }
}

/// An installment as built.
pub struct ParcelaData {
    pub n_dup: String,
    pub venc: String,
    pub valor: i128,
}

pub open spec fn parcela_view(p: ParcelaData) -> ParcelaV {
    (p.n_dup@, p.venc@, p.valor as int)
}

pub open spec fn parcelas_view(v: Seq<ParcelaData>) -> Seq<ParcelaV> {
    v.map_values(|p: ParcelaData| parcela_view(p))
}

pub open spec fn ints_view(v: Seq<i128>) -> Seq<int> {
    v.map_values(|x: i128| x as int)
}

/// Splits a total into installments (see `split_total`).
pub fn split_total_into_parcelas(total: i128, qtd: usize) -> (r: Vec<i128>)
    requires
        abs(total as int) <= parcel_bound(),
    ensures
        ints_view(r@) == split_total(total as int, qtd as nat),
{
    let q: usize = if qtd == 0 {
        1
    } else {
        qtd
    };
    let qi = q as i128;
    let base: i128 = if total >= 0 {
        total / qi
    } else {
        0i128 - ((0i128 - total) / qi)
    };
    proof {
        if total >= 0 {
            assert(base * qi <= total && base >= 0) by (nonlinear_arith)
                requires
                    base == total / qi,
                    qi >= 1,
                    total >= 0,
            ;
        } else {
            let n = -total;
            let b2 = n / (qi as int);
            assert(b2 * qi <= n && b2 >= 0) by (nonlinear_arith)
                requires
                    b2 == n / (qi as int),
                    qi >= 1,
                    n > 0,
            ;
            assert(base * qi == -(b2 * qi)) by (nonlinear_arith)
                requires
                    base == -b2,
            ;
        }
    }
    let rem = total - base * qi;
    let mut out: Vec<i128> = Vec::new();
    let mut i: usize = 0;
    while i + 1 < q
        invariant
            q >= 1,
            i + 1 <= q,
            ints_view(out@) == Seq::new(i as nat, |k: int| base as int),
        decreases q - i,
    {
        let ghost prev = out@;
        out.push(base);
        proof {
            assert(ints_view(out@) =~= ints_view(prev).push(base as int));
            assert(ints_view(out@) =~= Seq::new((i + 1) as nat, |k: int| base as int));
        }
        i = i + 1;
    }
    let ghost prev = out@;
    out.push(base + rem);
    proof {
        assert(ints_view(out@) =~= ints_view(prev).push((base + rem) as int));
        assert(ints_view(out@) =~= split_total(total as int, qtd as nat));
    }
    out
}

fn cents_or_zero_of(value: &String) -> (r: i128)
    ensures
        r as int == cents_or_zero(value@),
        abs(r as int) < money_bound(),
{
    match parse_money(value.as_str()) {
        Some(m) => signed_of(m),
        None => 0,
    }
}

fn rule_for(regras: &Vec<(String, usize)>, key: &String) -> (r: Option<usize>)
    ensures
        match r {
            Some(n) => rule_index(rules_view(regras@), key@, 0) >= 0 && rules_view(regras@)[rule_index(
                rules_view(regras@),
                key@,
                0,
            )].1 == n as nat,
            None => rule_index(rules_view(regras@), key@, 0) == -1,
        },
{
    let ghost rv = rules_view(regras@);
    for k in 0..regras.len()
        invariant
            rv == rules_view(regras@),
            forall|j: int| 0 <= j < k ==> rv[j].0 != key@,
    {
        if str_eq(regras[k].0.as_str(), key.as_str()) {
            proof {
                lemma_rule_index(rv, key@, 0, k as int);
            }
            return Some(regras[k].1);
        }
    }
    proof {
        lemma_rule_index_none(rv, key@, 0);
    }
    None
}

proof fn lemma_total_bound(m: MetaView)
    requires
        m.1.len() < 0x100_0000_0000_0000,
    ensures
        abs(meta_total(m)) <= 0x100_0000_0000_0000 * money_bound(),
{
    crate::faturas_index::lemma_meta_total_bound(m);
}

/// The installments of a note before their due dates (see `base_parcels`).
pub fn base_parcels_of(meta: &NfeMeta, opts: &SpedExportOptions) -> (r: Vec<ParcelaData>)
    requires
        meta.dup_list@.len() < 0x100_0000_0000_0000,
    ensures
        parcelas_view(r@) == base_parcels(
            meta_view(*meta),
            opts.modo_parcelas@,
            opts.qtd_parcelas_geral as nat,
            rules_view(opts.regras_fornecedor@),
            opts.regra_sem_dup@,
        ),
        abs_total(parcel_values(parcelas_view(r@))) <= parcel_bound(),
{
    let ghost mv = meta_view(*meta);
    let total = compute_total_from_meta(meta);
    proof {
        lemma_total_bound(mv);
    }
    let mut out: Vec<ParcelaData> = Vec::new();
    if str_eq(opts.modo_parcelas.as_str(), "respeitar_xml") {
        if meta.dup_list.len() > 0 {
            let ghost b0 = mv.1.map_values(
                |d: (Seq<char>, Seq<char>, Seq<char>)| (d.0, br_date(date_digits(d.1)), cents_or_zero(d.2)),
            );
            let mut any_positive = false;
            for i in 0..meta.dup_list.len()
                invariant
                    mv == meta_view(*meta),
                    b0 == mv.1.map_values(
                        |d: (Seq<char>, Seq<char>, Seq<char>)| (d.0, br_date(date_digits(d.1)), cents_or_zero(d.2)),
                    ),
                    meta.dup_list@.len() < 0x100_0000_0000_0000,
                    parcelas_view(out@) == b0.take(i as int),
                    any_positive == exists|k: int| 0 <= k < i && b0[k].2 > 0,
                    abs_total(parcel_values(parcelas_view(out@))) <= i * money_bound(),
            {
                let d = &meta.dup_list[i];
                let v = cents_or_zero_of(&d.v_dup);
                let venc = digits_to_br_date(ddmmyyyy_to_digits(d.d_venc.as_str()).as_str());
                let ghost prev = parcelas_view(out@);
                let p = ParcelaData { n_dup: copy_string(&d.n_dup), venc, valor: v };
                let ghost pv = parcela_view(p);
                out.push(p);
                proof {
                    assert(mv.1[i as int] == crate::faturas::dup_view(meta.dup_list@[i as int]));
                    assert(parcelas_view(out@) =~= prev.push(pv));
                    assert(b0.take(i + 1) =~= b0.take(i as int).push(b0[i as int]));
                    assert(parcel_values(parcelas_view(out@)) =~= parcel_values(prev).push(v as int));
                    lemma_abs_total_push(parcel_values(prev), v as int);
                    assert(i * money_bound() + money_bound() == (i + 1) * money_bound()) by (nonlinear_arith);
                }
                if v > 0 {
                    any_positive = true;
                }
            }
            proof {
                assert(b0.take(b0.len() as int) =~= b0);
                assert(meta.dup_list@.len() * money_bound() <= parcel_bound()) by (nonlinear_arith)
                    requires
                        meta.dup_list@.len() < 0x100_0000_0000_0000,
                ;
            }
            if !any_positive && total > 0 {
                let n = out.len();
                let sp = split_total_into_parcelas(total, n);
                proof {
                    lemma_split_total(total as int, n as nat);
                }
                let ghost spv = ints_view(sp@);
                let mut res: Vec<ParcelaData> = Vec::new();
                for k in 0..n
                    invariant
                        n == out@.len(),
                        n == b0.len(),
                        parcelas_view(out@) == b0,
                        spv == ints_view(sp@),
                        sp@.len() == n,
                        parcelas_view(res@) == Seq::new(k as nat, |j: int| (b0[j].0, b0[j].1, spv[j])),
                {
                    let p = ParcelaData { n_dup: copy_string(&out[k].n_dup), venc: copy_string(&out[k].venc), valor: sp[k] };
                    let ghost prev = parcelas_view(res@);
                    let ghost pv = parcela_view(p);
                    res.push(p);
                    proof {
                        assert(parcelas_view(res@) =~= prev.push(pv));
                        assert(parcelas_view(res@) =~= Seq::new((k + 1) as nat, |j: int| (b0[j].0, b0[j].1, spv[j])));
                    }
                }
                proof {
                    assert(parcel_values(parcelas_view(res@)) =~= spv);
                }
                return res;
            }
            return out;
        } else if str_eq(opts.regra_sem_dup.as_str(), "gerar") {
            out.push(ParcelaData { n_dup: copy_string(&meta.n_fat), venc: String::new(), valor: total });
            proof {
                assert(parcel_values(parcelas_view(out@)) =~= seq![total as int]);
                lemma_abs_total_push(Seq::<int>::empty(), total as int);
                assert(seq![total as int] =~= Seq::<int>::empty().push(total as int));
            }
            return out;
        } else {
            proof {
                assert(parcel_values(parcelas_view(out@)) =~= Seq::<int>::empty());
            }
            return out;
        }
    }
    let mut q = opts.qtd_parcelas_geral;
    if str_eq(opts.modo_parcelas.as_str(), "forcar_por_fornecedor") {
        match rule_for(&opts.regras_fornecedor, &meta.cnpj_terceiro) {
            Some(n) => {
                q = n;
            },
            None => {},
        }
    }
    let sp = split_total_into_parcelas(total, q);
    proof {
        lemma_split_total(total as int, q as nat);
    }
    let ghost spv = ints_view(sp@);
    for k in 0..sp.len()
        invariant
            spv == ints_view(sp@),
            parcelas_view(out@) == spv.take(k as int).map_values(|v: int| (Seq::<char>::empty(), Seq::<char>::empty(), v)),
    {
        let ghost prev = parcelas_view(out@);
        let p = ParcelaData { n_dup: String::new(), venc: String::new(), valor: sp[k] };
        let ghost pv = parcela_view(p);
        out.push(p);
        proof {
            assert(parcelas_view(out@) =~= prev.push(pv));
            assert(spv.take(k + 1).map_values(|v: int| (Seq::<char>::empty(), Seq::<char>::empty(), v)) =~= spv.take(
                k as int,
            ).map_values(|v: int| (Seq::<char>::empty(), Seq::<char>::empty(), v)).push(pv));
        }
    }
    proof {
        assert(spv.take(sp@.len() as int) =~= spv);
        assert(parcel_values(parcelas_view(out@)) =~= spv);
    }
    out
}

fn is_dig_date(v: &Vec<char>) -> (r: bool)
    ensures
        r == (digits(v@).len() == 8),
{
    only_digits_chars(v).len() == 8
}

/// The installments with a valid due date, dated (see `dated_parcels`).
fn dated_parcels_of(ps: Vec<ParcelaData>, opts: &SpedExportOptions, dt_doc: &str, dt_es: &str) -> (r: Vec<ParcelaData>)
    requires
        abs_total(parcel_values(parcelas_view(ps@))) <= parcel_bound(),
    ensures
        parcelas_view(r@) == dated_parcels(
            parcelas_view(ps@),
            ps@.len() as int,
            opts.intervalo_dias,
            opts.dias_por_parcela@,
            dt_doc@,
            dt_es@,
        ),
        abs_total(parcel_values(parcelas_view(r@))) <= parcel_bound(),
{
    let ghost pv = parcelas_view(ps@);
    let es = chars_of(dt_es);
    let base: &str = if is_dig_date(&es) {
        dt_es
    } else {
        dt_doc
    };
    let base_ok = is_dig_date(&chars_of(base));
    let mut out: Vec<ParcelaData> = Vec::new();
    proof {
        assert(parcel_values(pv.take(0)) =~= Seq::<int>::empty());
    }
    for idx in 0..ps.len()
        invariant
            pv == parcelas_view(ps@),
            abs_total(parcel_values(pv)) <= parcel_bound(),
            base@ == (if digits(dt_es@).len() == 8 {
                dt_es@
            } else {
                dt_doc@
            }),
            base_ok == (digits(base@).len() == 8),
            parcelas_view(out@) == dated_parcels(pv, idx as int, opts.intervalo_dias, opts.dias_por_parcela@, dt_doc@, dt_es@),
            abs_total(parcel_values(parcelas_view(out@))) <= abs_total(parcel_values(pv.take(idx as int))),
    {
        proof {
            assert(pv[idx as int] == parcela_view(ps@[idx as int]));
            assert(parcel_values(pv.take(idx + 1)) =~= parcel_values(pv.take(idx as int)).push(pv[idx as int].2));
            lemma_abs_total_push(parcel_values(pv.take(idx as int)), pv[idx as int].2);
        }
        let p = &ps[idx];
        let venc: String = if !p.venc.as_str().is_empty() {
            ddmmyyyy_to_digits(p.venc.as_str())
        } else if !base_ok {
            String::new()
        } else {
            let days: i64 = if idx < opts.dias_por_parcela.len() {
                opts.dias_por_parcela[idx] as i64
            } else {
                let t = idx as i32;
                let a = opts.intervalo_dias as i64;
                let b = (t as i64) + 1;
                assert(-0x4000_0000_0000_0000 <= a * b <= 0x4000_0000_0000_0000) by (nonlinear_arith)
                    requires
                        -0x8000_0000 <= a <= 0x7fff_ffff,
                        -0x7fff_ffff <= b <= 0x8000_0000,
                ;
                a * b
            };
            add_days_to_dig_date(base, days)
        };
        if is_dig_date(&chars_of(venc.as_str())) {
            let q = ParcelaData { n_dup: copy_string(&p.n_dup), venc, valor: p.valor };
            let ghost prev = parcelas_view(out@);
            let ghost qv = parcela_view(q);
            out.push(q);
            proof {
                assert(parcelas_view(out@) =~= prev.push(qv));
                assert(parcel_values(parcelas_view(out@)) =~= parcel_values(prev).push(qv.2));
                lemma_abs_total_push(parcel_values(prev), qv.2);
            }
        }
    }
    proof {
        assert(pv.take(ps@.len() as int) =~= pv);
    }
    out
}

fn copy_parcela(p: &ParcelaData) -> (r: ParcelaData)
    ensures
        parcela_view(r) == parcela_view(*p),
{
    ParcelaData { n_dup: copy_string(&p.n_dup), venc: copy_string(&p.venc), valor: p.valor }
}

pub open spec fn groups_values(g: Seq<(Seq<char>, int)>) -> Seq<int> {
    g.map_values(|e: (Seq<char>, int)| e.1)
}

proof fn lemma_date_index<V>(g: Seq<(Seq<char>, int)>, d: Seq<char>, j: int, k: int)
    requires
        0 <= j <= k < g.len(),
        g[k].0 == d,
        forall|i: int| j <= i < k ==> g[i].0 != d,
    ensures
        date_index(g, d, j) == k,
    decreases k - j,
{
    if j < k {
        lemma_date_index::<V>(g, d, j + 1, k);
    }
}

proof fn lemma_date_index_none(g: Seq<(Seq<char>, int)>, d: Seq<char>, j: int)
    requires
        0 <= j,
        forall|i: int| j <= i < g.len() ==> g[i].0 != d,
    ensures
        date_index(g, d, j) == -1,
    decreases g.len() - j,
{
    if j < g.len() {
        lemma_date_index_none(g, d, j + 1);
    }
}

proof fn lemma_date_slot(g: Seq<(Seq<char>, int)>, d: Seq<char>, j: int, k: int)
    requires
        0 <= j <= k <= g.len(),
        k < g.len() ==> text_lt(d, g[k].0),
        forall|i: int| j <= i < k ==> !text_lt(d, g[i].0),
    ensures
        date_slot(g, d, j) == k,
    decreases k - j,
{
    if j < k {
        lemma_date_slot(g, d, j + 1, k);
    }
}

/// The installments after the note's consolidation mode (see
/// `normalized_parcels`).
#[verifier::spinoff_prover]
#[verifier::rlimit(40)]
pub fn normalize_parcelas(parcelas: Vec<ParcelaData>, mode: &str) -> (r: Vec<ParcelaData>)
    requires
        abs_total(parcel_values(parcelas_view(parcelas@))) <= parcel_bound(),
    ensures
        parcelas_view(r@) == normalized_parcels(parcelas_view(parcelas@), mode@),
        abs_total(parcel_values(parcelas_view(r@))) <= parcel_bound(),
{
    let ghost pv = parcelas_view(parcelas@);
    if parcelas.len() == 0 {
        return parcelas;
    }
    if str_eq(mode, "reduzir_para_1_parcela") {
        let mut total: i128 = 0;
        let mut first: Option<usize> = None;
        proof {
            lemma_abs_total_prefix(parcel_values(pv), 0);
            assert(parcel_values(pv).take(0) =~= parcel_values(pv.take(0)));
        }
        for i in 0..parcelas.len()
            invariant
                pv == parcelas_view(parcelas@),
                abs_total(parcel_values(pv)) <= parcel_bound(),
                total as int == parcel_sum(pv.take(i as int)),
                abs(total as int) <= abs_total(parcel_values(pv.take(i as int))),
                abs_total(parcel_values(pv.take(i as int))) <= abs_total(parcel_values(pv)),
                first matches Some(f) ==> f < i && first_dated(pv, 0) == f as int,
                first is None ==> first_dated(pv, 0) == first_dated(pv, i as int),
        {
            proof {
                assert(pv[i as int] == parcela_view(parcelas@[i as int]));
                assert(pv.take(i + 1).drop_last() =~= pv.take(i as int));
                assert(parcel_values(pv.take(i + 1)) =~= parcel_values(pv.take(i as int)).push(pv[i as int].2));
                lemma_abs_total_push(parcel_values(pv.take(i as int)), pv[i as int].2);
                lemma_abs_total_prefix(parcel_values(pv), i + 1);
                assert(parcel_values(pv).take(i + 1) =~= parcel_values(pv.take(i + 1)));
            }
            total = total + parcelas[i].valor;
            if first.is_none() && !parcelas[i].venc.as_str().is_empty() {
                first = Some(i);
            }
        }
        proof {
            assert(pv.take(parcelas@.len() as int) =~= pv);
        }
        let f = match first {
            Some(f) => f,
            None => 0,
        };
        let src = &parcelas[f];
        let mut out: Vec<ParcelaData> = Vec::new();
        out.push(ParcelaData { n_dup: copy_string(&src.n_dup), venc: copy_string(&src.venc), valor: total });
        proof {
            assert(parcelas_view(out@) =~= seq![(pv[f as int].0, pv[f as int].1, total as int)]);
            assert(parcel_values(parcelas_view(out@)) =~= Seq::<int>::empty().push(total as int));
            lemma_abs_total_push(Seq::<int>::empty(), total as int);
        }
        return out;
    }
    if str_eq(mode, "agrupar_por_data") {
        let mut dates: Vec<Vec<char>> = Vec::new();
        let mut sums: Vec<i128> = Vec::new();
        let ghost mut g: Seq<(Seq<char>, int)> = seq![];
        proof {
            lemma_abs_total_prefix(parcel_values(pv), 0);
            assert(parcel_values(pv).take(0) =~= parcel_values(pv.take(0)));
            assert(groups_values(g) =~= Seq::<int>::empty());
        }
        for i in 0..parcelas.len()
            invariant
                pv == parcelas_view(parcelas@),
                abs_total(parcel_values(pv)) <= parcel_bound(),
                g == by_date(pv.take(i as int)),
                dates@.len() == g.len(),
                sums@.len() == g.len(),
                forall|k: int| 0 <= k < g.len() ==> (#[trigger] dates@[k])@ == g[k].0 && sums@[k] as int == g[k].1,
                abs_total(groups_values(g)) <= abs_total(parcel_values(pv.take(i as int))),
                abs_total(parcel_values(pv.take(i as int))) <= abs_total(parcel_values(pv)),
        {
            proof {
                assert(pv[i as int] == parcela_view(parcelas@[i as int]));
                assert(pv.take(i + 1).drop_last() =~= pv.take(i as int));
                assert(parcel_values(pv.take(i + 1)) =~= parcel_values(pv.take(i as int)).push(pv[i as int].2));
                lemma_abs_total_push(parcel_values(pv.take(i as int)), pv[i as int].2);
                lemma_abs_total_prefix(parcel_values(pv), i + 1);
                assert(parcel_values(pv).take(i + 1) =~= parcel_values(pv.take(i + 1)));
            }
            let d = chars_of(parcelas[i].venc.as_str());
            let v = parcelas[i].valor;
            let ghost p = pv[i as int];
            let mut found: Option<usize> = None;
            let mut k: usize = 0;
            while k < dates.len()
                invariant
                    dates@.len() == g.len(),
                    forall|kk: int| 0 <= kk < g.len() ==> (#[trigger] dates@[kk])@ == g[kk].0,
                    k <= dates@.len(),
                    found is None ==> forall|j: int| 0 <= j < k ==> g[j].0 != d@,
                    found matches Some(f) ==> f < g.len() && g[f as int].0 == d@ && forall|j: int| 0 <= j < f ==> g[j].0 != d@,
                decreases dates@.len() - k,
            {
                if found.is_none() && chars_eq(&dates[k], &d) {
                    found = Some(k);
                }
                k = k + 1;
            }
            match found {
                Some(f) => {
                    proof {
                        lemma_date_index::<int>(g, d@, 0, f as int);
                        lemma_abs_total_update(groups_values(g), f as int, g[f as int].1 + p.2);
                        assert(groups_values(g.update(f as int, (g[f as int].0, g[f as int].1 + p.2))) =~= groups_values(g).update(f as int, g[f as int].1 + p.2));
                        assert(groups_values(g)[f as int] == g[f as int].1);
                    }
                    proof {
                        lemma_abs_elem(groups_values(g), f as int);
                        lemma_abs_elem(parcel_values(pv), i as int);
                        assert(dates@[f as int]@ == g[f as int].0);
                        assert(groups_values(g)[f as int] == g[f as int].1);
                        assert(parcel_values(pv)[i as int] == v as int);
                    }
                    let nv = sums[f] + v;
                    let ghost old_sums = sums@;
                    let ghost old_g = g;
                    sums.set(f, nv);
                    proof {
                        g = g.update(f as int, (g[f as int].0, g[f as int].1 + p.2));
                        assert forall|kk: int| 0 <= kk < g.len() implies (#[trigger] dates@[kk])@ == g[kk].0 && sums@[kk] as int
                            == g[kk].1 by {
                            assert(dates@[kk]@ == old_g[kk].0);
                            if kk != f {
                                assert(sums@[kk] == old_sums[kk]);
                            }
                        }
                    }
                },
                None => {
                    proof {
                        lemma_date_index_none(g, d@, 0);
                    }
                    let mut pos: usize = 0;
                    let mut stop = false;
                    while !stop && pos < dates.len()
                        invariant
                            dates@.len() == g.len(),
                            forall|kk: int| 0 <= kk < g.len() ==> (#[trigger] dates@[kk])@ == g[kk].0,
                            pos <= dates@.len(),
                            stop ==> pos < g.len() && text_lt(d@, g[pos as int].0),
                            forall|j: int| 0 <= j < pos ==> !text_lt(d@, g[j].0),
                        decreases dates@.len() - pos + if stop {
                            0int
                        } else {
                            1int
                        },
                    {
                        if text_lt_chars(&d, &dates[pos]) {
                            stop = true;
                        } else {
                            pos = pos + 1;
                        }
                    }
                    proof {
                        lemma_date_slot(g, d@, 0, pos as int);
                        lemma_abs_total_insert(groups_values(g), pos as int, p.2);
                        assert(groups_values(g.insert(pos as int, (d@, p.2))) =~= groups_values(g).insert(pos as int, p.2));
                    }
                    let ghost old_dates = dates@;
                    let ghost old_sums = sums@;
                    let ghost old_g = g;
                    let ghost dv = d@;
                    dates.insert(pos, d);
                    sums.insert(pos, v);
                    proof {
                        g = g.insert(pos as int, (p.1, p.2));
                        assert forall|kk: int| 0 <= kk < g.len() implies (#[trigger] dates@[kk])@ == g[kk].0 && sums@[kk] as int
                            == g[kk].1 by {
                            if kk < pos {
                                assert(dates@[kk] == old_dates[kk]);
                                assert(old_dates[kk]@ == old_g[kk].0);
                            } else if kk > pos {
                                assert(dates@[kk] == old_dates[kk - 1]);
                                assert(old_dates[kk - 1]@ == old_g[kk - 1].0);
                            }
                        }
                    }
                },
            }
        }
        proof {
            assert(pv.take(parcelas@.len() as int) =~= pv);
        }
        let mut out: Vec<ParcelaData> = Vec::new();
        for k in 0..dates.len()
            invariant
                dates@.len() == g.len(),
                sums@.len() == g.len(),
                forall|kk: int| 0 <= kk < g.len() ==> (#[trigger] dates@[kk])@ == g[kk].0 && sums@[kk] as int == g[kk].1,
                parcelas_view(out@) == g.take(k as int).map_values(|e: (Seq<char>, int)| (Seq::<char>::empty(), e.0, e.1)),
        {
            let q = ParcelaData { n_dup: String::new(), venc: string_of(&dates[k]), valor: sums[k] };
            let ghost prev = parcelas_view(out@);
            let ghost qv = parcela_view(q);
            out.push(q);
            proof {
                assert(parcelas_view(out@) =~= prev.push(qv));
                assert(g.take(k + 1).map_values(|e: (Seq<char>, int)| (Seq::<char>::empty(), e.0, e.1)) =~= g.take(
                    k as int,
                ).map_values(|e: (Seq<char>, int)| (Seq::<char>::empty(), e.0, e.1)).push(qv));
            }
        }
        proof {
            assert(g.take(g.len() as int) =~= g);
            assert(parcel_values(parcelas_view(out@)) =~= groups_values(g));
        }
        return out;
    }
    parcelas
}

proof fn lemma_abs_elem(s: Seq<int>, k: int)
    requires
        0 <= k < s.len(),
    ensures
        abs(s[k]) <= abs_total(s),
        abs_total(s) >= 0,
    decreases s.len(),
{
    lemma_abs_total_nonneg(s.drop_last());
    if k < s.len() - 1 {
        lemma_abs_elem(s.drop_last(), k);
    }
}

proof fn lemma_abs_total_nonneg(s: Seq<int>)
    ensures
        abs_total(s) >= 0,
    decreases s.len(),
{
    if s.len() > 0 {
        lemma_abs_total_nonneg(s.drop_last());
    }
}

proof fn lemma_abs_total_prefix(s: Seq<int>, n: int)
    requires
        0 <= n <= s.len(),
    ensures
        abs_total(s.take(n)) <= abs_total(s),
    decreases s.len() - n,
{
    if n < s.len() {
        lemma_abs_total_prefix(s, n + 1);
        assert(s.take(n + 1).drop_last() =~= s.take(n));
        assert(s.take(n + 1).last() == s[n]);
    } else {
        assert(s.take(n) =~= s);
    }
}

// ---------------------------------------------------------------------------
// C140 and C141 records
// ---------------------------------------------------------------------------

/// `format!("{:.2}", x).replace('.', ",")` of an amount in cents.
pub open spec fn sped_money(c: int) -> Seq<char> {
    let a = abs(c);
    (if c < 0 {
        "-"@
    } else {
        seq![]
    }) + decimal((a / 100) as nat) + ","@ + two_digits((a % 100) as nat)
}

/// The shortest end of `s` whose UTF-8 encoding holds at least `n` bytes.
pub open spec fn byte_suffix(s: Seq<char>, n: int) -> Seq<char>
    decreases s.len(),
{
    if n <= 0 || s.len() == 0 {
        seq![]
    } else {
        byte_suffix(s.drop_last(), n - utf8_width(s.last())).push(s.last())
    }
}

/// The first installment with a number, or -1.
pub open spec fn first_titled(ps: Seq<ParcelaV>, j: int) -> int
    decreases ps.len() - j,
{
    if j < 0 || j >= ps.len() {
        -1
    } else if !is_blank(ps[j].0) {
        j
    } else {
        first_titled(ps, j + 1)
    }
}

/// The title number of the records: an installment's number, else the
/// invoice number, else `NF/SERIE`, else the last six bytes of the key,
/// else `TITULO`.
pub open spec fn title_of(m: MetaView, ps: Seq<ParcelaV>) -> Seq<char> {
    let k = first_titled(ps, 0);
    if k >= 0 {
        ps[k].0
    } else if m.0.1.len() > 0 {
        m.0.1
    } else if m.2.0.len() > 0 {
        m.2.0 + "/"@ + m.2.1
    } else if utf8_len(m.0.0) >= 6 {
        byte_suffix(m.0.0, 6)
    } else {
        "TITULO"@
    }
}

/// The due date written for an installment: the document date when the
/// installment would fall due before it.
pub open spec fn c141_due(p: ParcelaV, dt_doc: Seq<char>) -> Seq<char> {
    match (br_time(br_date(dt_doc)), br_time(br_date(p.1))) {
        (Some(td), Some(tv)) => if tv < td {
            dt_doc
        } else {
            p.1
        },
        _ => p.1,
    }
}

pub open spec fn c141_line(p: ParcelaV, k: int, dt_doc: Seq<char>) -> Seq<char> {
    "|C141|"@ + zero_pad(decimal((k + 1) as nat), 2) + "|"@ + c141_due(p, dt_doc) + "|"@ + sped_money(p.2) + "||"@
}

/// The due date a `C141` record carries is never before the document's
/// date: an installment due earlier is written as due on the document's
/// date, any other keeps its own date.
pub proof fn law_c141_due_not_before_document(p: ParcelaV, dt_doc: Seq<char>, td: i64, tv: i64)
    requires
        br_time(br_date(dt_doc)) == Some(td),
        br_time(br_date(p.1)) == Some(tv),
    ensures
        br_time(br_date(c141_due(p, dt_doc))) == Some(if tv < td { td } else { tv }),
        tv >= td ==> c141_due(p, dt_doc) == p.1,
{
}

/// The `C140` record of the installments and one `C141` per installment.
pub open spec fn c140_lines(m: MetaView, ps: Seq<ParcelaV>, dt_doc: Seq<char>) -> Seq<Seq<char>> {
    if ps.len() == 0 {
        seq![]
    } else {
        seq![
            "|C140|1|00||"@ + title_of(m, ps) + "|"@ + decimal(ps.len()) + "|"@ + sped_money(parcel_sum(ps)) + "||"@,
        ] + Seq::new(ps.len(), |k: int| c141_line(ps[k], k, dt_doc))
    }
}

fn sped_money_text(c: i128) -> (r: Vec<char>)
    requires
        c > i128::MIN,
    ensures
        r@ == sped_money(c as int),
{
    let a: u128 = if c < 0 {
        (0i128 - c) as u128
    } else {
        c as u128
    };
    let mut out: Vec<char> = Vec::new();
    if c < 0 {
        append_str(&mut out, "-");
    }
    let units = decimal_chars(a / 100);
    append_chars(&mut out, &units);
    append_str(&mut out, ",");
    let rest = a % 100;
    let mut two: Vec<char> = Vec::new();
    two.push((((rest / 10) as u8) + 48) as char);
    two.push((((rest % 10) as u8) + 48) as char);
    append_chars(&mut out, &two);
    proof {
        assert(two@ =~= two_digits((a % 100) as nat));
        assert(out@ =~= sped_money(c as int));
    }
    out
}

fn byte_suffix_of(v: &Vec<char>, n: usize) -> (r: Vec<char>)
    ensures
        r@ == byte_suffix(v@, n as int),
    decreases v@.len(),
{
    if n == 0 || v.len() == 0 {
        return Vec::new();
    }
    let last = v[v.len() - 1];
    let w = utf8_width_of(last);
    let rest = crate::text::slice_chars(v, 0, v.len() - 1);
    proof {
        assert(rest@ =~= v@.drop_last());
    }
    let mut r = if w >= n {
        proof {
            assert(byte_suffix(v@.drop_last(), n - w) == Seq::<char>::empty());
        }
        Vec::new()
    } else {
        byte_suffix_of(&rest, n - w)
    };
    r.push(last);
    r
}

fn title_exec(meta: &NfeMeta, ps: &Vec<ParcelaData>) -> (r: Vec<char>)
    ensures
        r@ == title_of(meta_view(*meta), parcelas_view(ps@)),
{
    let ghost pv = parcelas_view(ps@);
    let mut k: usize = 0;
    while k < ps.len()
        invariant
            pv == parcelas_view(ps@),
            k <= ps@.len(),
            first_titled(pv, 0) == first_titled(pv, k as int),
        decreases ps@.len() - k,
    {
        assert(pv[k as int] == parcela_view(ps@[k as int]));
        if !is_blank_chars(&chars_of(ps[k].n_dup.as_str())) {
            return chars_of(ps[k].n_dup.as_str());
        }
        k = k + 1;
    }
    if !meta.n_fat.as_str().is_empty() {
        return chars_of(meta.n_fat.as_str());
    }
    if !meta.nf_numero.as_str().is_empty() {
        let mut v = chars_of(meta.nf_numero.as_str());
        append_str(&mut v, "/");
        append_str(&mut v, meta.serie.as_str());
        return v;
    }
    let chave = chars_of(meta.chave.as_str());
    let long = crate::text::utf8_len_gt(&chave, 5);
    if long {
        return byte_suffix_of(&chave, 6);
    }
    chars_of("TITULO")
}

/// The `C140` and `C141` records of a note's installments (see
/// `c140_lines`).
pub fn build_c140_c141_lines(meta: &NfeMeta, parcelas: &Vec<ParcelaData>, dt_doc: &str) -> (r: Vec<String>)
    requires
        abs_total(parcel_values(parcelas_view(parcelas@))) <= parcel_bound(),
    ensures
        crate::sped::texts(r@) == c140_lines(meta_view(*meta), parcelas_view(parcelas@), dt_doc@),
{
    let ghost pv = parcelas_view(parcelas@);
    if parcelas.len() == 0 {
        let out: Vec<String> = Vec::new();
        proof {
            assert(crate::sped::texts(out@) =~= Seq::<Seq<char>>::empty());
        }
        return out;
    }
    let title = title_exec(meta, parcelas);
    let mut total: i128 = 0;
    proof {
        lemma_abs_total_prefix(parcel_values(pv), 0);
        assert(parcel_values(pv).take(0) =~= parcel_values(pv.take(0)));
    }
    for i in 0..parcelas.len()
        invariant
            pv == parcelas_view(parcelas@),
            abs_total(parcel_values(pv)) <= parcel_bound(),
            total as int == parcel_sum(pv.take(i as int)),
            abs(total as int) <= abs_total(parcel_values(pv.take(i as int))),
            abs_total(parcel_values(pv.take(i as int))) <= abs_total(parcel_values(pv)),
    {
        proof {
            assert(pv[i as int] == parcela_view(parcelas@[i as int]));
            assert(pv.take(i + 1).drop_last() =~= pv.take(i as int));
            assert(parcel_values(pv.take(i + 1)) =~= parcel_values(pv.take(i as int)).push(pv[i as int].2));
            lemma_abs_total_push(parcel_values(pv.take(i as int)), pv[i as int].2);
            lemma_abs_total_prefix(parcel_values(pv), i + 1);
            assert(parcel_values(pv).take(i + 1) =~= parcel_values(pv.take(i + 1)));
        }
        total = total + parcelas[i].valor;
    }
    proof {
        assert(pv.take(parcelas@.len() as int) =~= pv);
    }
    let mut head: Vec<char> = chars_of("|C140|1|00||");
    append_chars(&mut head, &title);
    append_str(&mut head, "|");
    let n = decimal_chars(parcelas.len() as u128);
    append_chars(&mut head, &n);
    append_str(&mut head, "|");
    let money = sped_money_text(total);
    append_chars(&mut head, &money);
    append_str(&mut head, "||");
    let mut out: Vec<String> = Vec::new();
    out.push(string_of(&head));
    let doc_time = br_date_to_time(digits_to_br_date(dt_doc).as_str());
    for k in 0..parcelas.len()
        invariant
            pv == parcelas_view(parcelas@),
            abs_total(parcel_values(pv)) <= parcel_bound(),
            doc_time == br_time(br_date(dt_doc@)),
            out@.len() == k + 1,
            crate::sped::texts(out@)[0] == "|C140|1|00||"@ + title_of(meta_view(*meta), pv) + "|"@ + decimal(pv.len()) + "|"@
                + sped_money(parcel_sum(pv)) + "||"@,
            forall|j: int| 0 <= j < k ==> (#[trigger] out@[j + 1])@ == c141_line(pv[j], j, dt_doc@),
    {
        let p = &parcelas[k];
        proof {
            assert(pv[k as int] == parcela_view(*p));
            lemma_abs_elem(parcel_values(pv), k as int);
            assert(parcel_values(pv)[k as int] == p.valor as int);
        }
        let venc_time = br_date_to_time(digits_to_br_date(p.venc.as_str()).as_str());
        let use_doc = match (doc_time, venc_time) {
            (Some(td), Some(tv)) => tv < td,
            _ => false,
        };
        let mut line: Vec<char> = chars_of("|C141|");
        let num = zero_pad_chars(&decimal_chars((k + 1) as u128), 2);
        append_chars(&mut line, &num);
        append_str(&mut line, "|");
        if use_doc {
            append_str(&mut line, dt_doc);
        } else {
            append_str(&mut line, p.venc.as_str());
        }
        append_str(&mut line, "|");
        let vm = sped_money_text(p.valor);
        append_chars(&mut line, &vm);
        append_str(&mut line, "||");
        proof {
            assert(line@ =~= c141_line(pv[k as int], k as int, dt_doc@));
        }
        out.push(string_of(&line));
    }
    proof {
        assert(crate::sped::texts(out@) =~= c140_lines(meta_view(*meta), pv, dt_doc@));
    }
    out
}

/// The installments of a note for its `C100` record: built, dated and
/// consolidated.
pub open spec fn parcels_for_c100(
    m: MetaView,
    o: (Seq<char>, nat, Seq<(Seq<char>, nat)>, i32, Seq<i32>, Seq<char>, Seq<char>),
    dt_doc: Seq<char>,
    dt_es: Seq<char>,
) -> Seq<ParcelaV> {
    let b = base_parcels(m, o.0, o.1, o.2, o.5);
    normalized_parcels(dated_parcels(b, b.len() as int, o.3, o.4, dt_doc, dt_es), o.6)
}

pub open spec fn opts_view(o: SpedExportOptions) -> (Seq<char>, nat, Seq<(Seq<char>, nat)>, i32, Seq<i32>, Seq<char>, Seq<char>) {
    (
        o.modo_parcelas@,
        o.qtd_parcelas_geral as nat,
        rules_view(o.regras_fornecedor@),
        o.intervalo_dias,
        o.dias_por_parcela@,
        o.regra_sem_dup@,
        o.consolidacao_interna@,
    )
}

/// The installments of a note for its `C100` record (see `parcels_for_c100`).
pub fn build_parcelas_for_c100(meta: &NfeMeta, opts: &SpedExportOptions, dt_doc: &str, dt_es: &str) -> (r: Vec<ParcelaData>)
    requires
        meta.dup_list@.len() < 0x100_0000_0000_0000,
    ensures
        parcelas_view(r@) == parcels_for_c100(meta_view(*meta), opts_view(*opts), dt_doc@, dt_es@),
        abs_total(parcel_values(parcelas_view(r@))) <= parcel_bound(),
{
    let base = base_parcels_of(meta, opts);
    let dated = dated_parcels_of(base, opts, dt_doc, dt_es);
    normalize_parcelas(dated, opts.consolidacao_interna.as_str())
}

} // verus!
