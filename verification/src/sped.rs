//! SPED fiscal files as records of `|`-separated fields, and the
//! replacement of their C140/C141 (invoice and installment) records.
use vstd::prelude::*;

use crate::text::{
    chars_of, chars_of_string, copy_string, ends_with, lines_chars, lines_of, split_chars,
    split_on, starts_with, str_eq, string_of, trim, trim_chars, trim_matches,
    trim_matches_chars,
};

verus! {

/// One SPED line: its register code (the first field) and all its fields.
pub struct SpedRecord {
    pub registro: String,
    pub campos: Vec<String>,
}

pub open spec fn texts(v: Seq<String>) -> Seq<Seq<char>> {
    v.map_values(|s: String| s@)
}

/// The fields of a line: the text between the outer bars, split on `|`,
/// each field trimmed.
pub open spec fn line_fields(line: Seq<char>) -> Seq<Seq<char>> {
    split_on(trim_matches(line, '|'), '|').map_values(|p: Seq<char>| trim(p))
}

/// The record a line gives: register code and fields.
pub open spec fn line_record(line: Seq<char>) -> (Seq<char>, Seq<Seq<char>>) {
    (line_fields(line)[0], line_fields(line))
}

pub open spec fn record_view(r: SpedRecord) -> (Seq<char>, Seq<Seq<char>>) {
    (r.registro@, texts(r.campos@))
}

pub open spec fn records_view(v: Seq<SpedRecord>) -> Seq<(Seq<char>, Seq<Seq<char>>)> {
    v.map_values(|r: SpedRecord| record_view(r))
}

/// A SPED line starts and ends with `|`.
pub open spec fn is_sped_line(line: Seq<char>) -> bool {
    starts_with(line, seq!['|']) && ends_with(line, seq!['|'])
}

/// The SPED lines among `lines`, in order.
pub open spec fn sped_lines(lines: Seq<Seq<char>>) -> Seq<Seq<char>>
    decreases lines.len(),
{
    if lines.len() == 0 {
        seq![]
    } else if is_sped_line(lines.last()) {
        sped_lines(lines.drop_last()).push(lines.last())
    } else {
        sped_lines(lines.drop_last())
    }
}

/// The records of a SPED text: one per line that starts and ends with `|`.
pub open spec fn sped_records(content: Seq<char>) -> Seq<(Seq<char>, Seq<Seq<char>>)> {
    sped_lines(lines_of(content)).map_values(|l: Seq<char>| line_record(l))
}

pub proof fn lemma_line_fields_nonempty(line: Seq<char>)
    ensures
        line_fields(line).len() >= 1,
{
    crate::text::lemma_split_on_nonempty(trim_matches(line, '|'), '|');
}

fn strings_of(parts: &Vec<Vec<char>>) -> (r: Vec<String>)
    ensures
        texts(r@) == parts@.map_values(|p: Vec<char>| trim(p@)),
{
    let mut out: Vec<String> = Vec::new();
    for i in 0..parts.len()
        invariant
            out@.len() == i,
            forall|k: int| 0 <= k < i ==> (#[trigger] out@[k])@ == trim(parts@[k]@),
    {
        out.push(string_of(&trim_chars(&parts[i])));
    }
    proof {
        assert(texts(out@) =~= parts@.map_values(|p: Vec<char>| trim(p@)));
    }
    out
}

/// The record of one SPED line.
pub fn record_of_line(line: &Vec<char>) -> (r: SpedRecord)
    ensures
        record_view(r) == line_record(line@),
{
    let inner = trim_matches_chars(line, '|');
    let parts = split_chars(&inner, '|');
    let campos = strings_of(&parts);
    proof {
        assert(parts@.map_values(|p: Vec<char>| trim(p@)) =~= line_fields(line@));
        lemma_line_fields_nonempty(line@);
    }
    let registro = copy_string(&campos[0]);
    SpedRecord { registro, campos }
}

fn is_sped_line_chars(v: &Vec<char>) -> (r: bool)
    ensures
        r == is_sped_line(v@),
{
    let n = v.len();
    let r = n > 0 && v[0] == '|' && v[n - 1] == '|';
    proof {
        if n > 0 {
            assert(v@.take(1) =~= seq![v@[0]]);
            assert(v@.skip(n - 1) =~= seq![v@[n - 1]]);
        }
        if is_sped_line(v@) {
            assert(v@.take(1)[0] == v@[0]);
            assert(v@.skip(n - 1)[0] == v@[n - 1]);
        }
    }
    r
}

/// Reads a SPED text: one record for each line that starts and ends with
/// `|`, in order.  Every text is accepted.
pub fn parse_sped(content: &str) -> (r: Result<Vec<SpedRecord>, String>)
    ensures
        r matches Ok(recs) && records_view(recs@) == sped_records(content@),
{
    let v = chars_of(content);
    let lines = lines_chars(&v);
    let ghost ls = lines_of(content@);
    let mut out: Vec<SpedRecord> = Vec::new();
    proof {
        assert(lines@.map_values(|l: Vec<char>| l@) =~= ls);
        assert(ls.take(0) =~= Seq::<Seq<char>>::empty());
        assert(records_view(out@) =~= Seq::<(Seq<char>, Seq<Seq<char>>)>::empty());
    }
    for i in 0..lines.len()
        invariant
            lines@.len() == ls.len(),
            forall|k: int| 0 <= k < lines@.len() ==> (#[trigger] lines@[k])@ == ls[k],
            records_view(out@) == sped_lines(ls.take(i as int)).map_values(
                |l: Seq<char>| line_record(l),
            ),
    {
        proof {
            assert(ls.take(i + 1).drop_last() =~= ls.take(i as int));
            assert(ls.take(i + 1).last() == lines@[i as int]@);
        }
        if is_sped_line_chars(&lines[i]) {
            let ghost before = records_view(out@);
            out.push(record_of_line(&lines[i]));
            proof {
                assert(records_view(out@) =~= before.push(line_record(lines@[i as int]@)));
            }
        }
    }
    proof {
        assert(ls.take(lines@.len() as int) =~= ls);
    }
    Ok(out)
}

// ---------------------------------------------------------------------------
// C140/C141 replacement
// ---------------------------------------------------------------------------

pub open spec fn is_c14x(code: Seq<char>) -> bool {
    code == "C140"@ || code == "C141"@
}

/// The records that are neither C140 nor C141, in order.
pub open spec fn without_c14x(v: Seq<(Seq<char>, Seq<Seq<char>>)>) -> Seq<(Seq<char>, Seq<Seq<char>>)>
    decreases v.len(),
{
    if v.len() == 0 {
        seq![]
    } else if is_c14x(v.last().0) {
        without_c14x(v.drop_last())
    } else {
        without_c14x(v.drop_last()).push(v.last())
    }
}

/// The records after the replacement: the old ones without C140/C141, then
/// one record per payload line.
pub open spec fn upserted(
    records: Seq<(Seq<char>, Seq<Seq<char>>)>,
    payload: Seq<Seq<char>>,
) -> Seq<(Seq<char>, Seq<Seq<char>>)> {
    without_c14x(records) + payload.map_values(|l: Seq<char>| line_record(l))
}

fn copy_strings(v: &Vec<String>) -> (r: Vec<String>)
    ensures
        texts(r@) == texts(v@),
{
    let mut out: Vec<String> = Vec::new();
    for i in 0..v.len()
        invariant
            out@.len() == i,
            forall|k: int| 0 <= k < i ==> (#[trigger] out@[k])@ == v@[k]@,
    {
        out.push(copy_string(&v[i]));
    }
    proof {
        assert(texts(out@) =~= texts(v@));
    }
    out
}

pub fn copy_record(r: &SpedRecord) -> (c: SpedRecord)
    ensures
        record_view(c) == record_view(*r),
{
    SpedRecord { registro: copy_string(&r.registro), campos: copy_strings(&r.campos) }
}

/// Replaces the C140/C141 records by the records of the payload lines,
/// which are appended after the remaining records.
pub fn upsert_c140_c141(records: &Vec<SpedRecord>, payload_lines: &Vec<String>) -> (r: Vec<
    SpedRecord,
>)
    ensures
        records_view(r@) == upserted(records_view(records@), texts(payload_lines@)),
{
    let ghost rv = records_view(records@);
    let mut next: Vec<SpedRecord> = Vec::new();
    proof {
        assert(rv.take(0) =~= Seq::<(Seq<char>, Seq<Seq<char>>)>::empty());
        assert(records_view(next@) =~= Seq::<(Seq<char>, Seq<Seq<char>>)>::empty());
    }
    for i in 0..records.len()
        invariant
            rv == records_view(records@),
            records_view(next@) == without_c14x(rv.take(i as int)),
    {
        proof {
            assert(rv.take(i + 1).drop_last() =~= rv.take(i as int));
            assert(rv.take(i + 1).last() == record_view(records@[i as int]));
        }
        let code = records[i].registro.as_str();
        if !str_eq(code, "C140") && !str_eq(code, "C141") {
            let ghost before = records_view(next@);
            next.push(copy_record(&records[i]));
            proof {
                assert(records_view(next@) =~= before.push(record_view(records@[i as int])));
            }
        }
    }
    proof {
        assert(rv.take(records@.len() as int) =~= rv);
    }
    let ghost base = records_view(next@);
    let ghost pv = texts(payload_lines@);
    for j in 0..payload_lines.len()
        invariant
            pv == texts(payload_lines@),
            records_view(next@) == base + pv.take(j as int).map_values(
                |l: Seq<char>| line_record(l),
            ),
    {
        let ghost before = records_view(next@);
        let line = chars_of_string(&payload_lines[j]);
        next.push(record_of_line(&line));
        proof {
            assert(pv.take(j + 1) =~= pv.take(j as int).push(payload_lines@[j as int]@));
            assert(pv.take(j + 1).map_values(|l: Seq<char>| line_record(l)) =~= pv.take(
                j as int,
            ).map_values(|l: Seq<char>| line_record(l)).push(line_record(line@)));
            assert(records_view(next@) =~= before.push(line_record(line@)));
            assert(before.push(line_record(line@)) =~= base + pv.take(j + 1).map_values(
                |l: Seq<char>| line_record(l),
            ));
        }
    }
    proof {
        assert(pv.take(payload_lines@.len() as int) =~= pv);
    }
    next
}

} // verus!
