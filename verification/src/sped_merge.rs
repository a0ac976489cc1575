//! SPED files with the invoice records (C140/C141) of their documents:
//! the header check that allows merging several files, the update of one
//! file with the records built for each C100 group, and the merge of
//! updated files into one.
use vstd::prelude::*;

use crate::faturas::NamedText;
use crate::legacy_pipe::non_blank_lines;
use crate::sped::texts;
use crate::sped_blocks::{
    copy_range, find_tag, find_tag_from, has_tag, lemma_find_tag, line_has_tag, rebuild_block9,
    rebuild_block9_spec, split_by_c100_spec, split_sped_by_c100, strip_block9,
    strip_block9_spec, update_c990, update_c990_spec, Lines,
};
use crate::text::{
    alnum_upper, append_chars, chars_of, chars_of_string, copy_string, digits, is_blank,
    is_blank_chars, join, join_chars, lines_chars, lines_of, only_alphanum_upper, only_digits,
    split_chars, split_on, str_eq, str_to_string, string_of, strip_trailing, trim, trim_chars,
    trim_matches, trim_matches_chars, upper_seq, ascii_upper,
};

verus! {

// ---------------------------------------------------------------------------
// Lines of a text
// ---------------------------------------------------------------------------

/// The non-blank lines of a text, in order.
pub open spec fn text_lines(t: Seq<char>) -> Lines {
    non_blank_lines(lines_of(t))
}

/// The non-blank lines of a text with every trailing `\r` removed.
pub open spec fn text_lines_no_cr(t: Seq<char>) -> Lines {
    non_blank_lines(lines_of(t).map_values(|l: Seq<char>| strip_trailing(l, '\r')))
}

/// The non-blank lines of a text, optionally with trailing `\r` removed.
pub fn non_blank_text_lines(t: &str, drop_cr: bool) -> (r: Vec<String>)
    ensures
        texts(r@) == if drop_cr {
            text_lines_no_cr(t@)
        } else {
            text_lines(t@)
        },
{
    let v = chars_of(t);
    let ls = lines_chars(&v);
    let ghost lv = lines_of(t@);
    let ghost src = if drop_cr {
        lv.map_values(|l: Seq<char>| strip_trailing(l, '\r'))
    } else {
        lv
    };
    let mut out: Vec<String> = Vec::new();
    proof {
        assert(src.take(0) =~= Seq::<Seq<char>>::empty());
        assert(texts(out@) =~= Seq::<Seq<char>>::empty());
    }
    for i in 0..ls.len()
        invariant
            ls@.len() == lv.len(),
            src.len() == lv.len(),
            forall|k: int| 0 <= k < ls@.len() ==> (#[trigger] ls@[k])@ == lv[k],
            src == if drop_cr {
                lv.map_values(|l: Seq<char>| strip_trailing(l, '\r'))
            } else {
                lv
            },
            texts(out@) == non_blank_lines(src.take(i as int)),
    {
        let line = if drop_cr {
            crate::text::strip_trailing_chars(&ls[i], '\r')
        } else {
            crate::text::copy_chars(&ls[i])
        };
        proof {
            assert(src.take(i + 1).drop_last() =~= src.take(i as int));
            assert(src.take(i + 1).last() == line@);
        }
        if !is_blank_chars(&line) {
            let ghost before = texts(out@);
            out.push(string_of(&line));
            proof {
                assert(texts(out@) =~= before.push(line@));
            }
        }
    }
    proof {
        assert(src.take(ls@.len() as int) =~= src);
    }
    out
}

/// The lines joined with `\r\n`, with a final `\r\n`.
pub open spec fn crlf_text(ls: Lines) -> Seq<char> {
    join(ls, "\r\n"@) + "\r\n"@
}

pub fn crlf_text_of(lines: &Vec<String>) -> (r: String)
    ensures
        r@ == crlf_text(texts(lines@)),
{
    let mut cs: Vec<Vec<char>> = Vec::new();
    for i in 0..lines.len()
        invariant
            cs@.len() == i,
            forall|k: int| 0 <= k < i ==> (#[trigger] cs@[k])@ == lines@[k]@,
    {
        cs.push(chars_of_string(&lines[i]));
    }
    proof {
        assert(cs@.map_values(|p: Vec<char>| p@) =~= texts(lines@));
    }
    let sep = chars_of("\r\n");
    let mut j = join_chars(&cs, &sep);
    append_chars(&mut j, &sep);
    string_of(&j)
}

// ---------------------------------------------------------------------------
// Header (register 0000)
// ---------------------------------------------------------------------------

/// The fields of a trimmed line between its outer bars, each trimmed.
pub open spec fn bar_fields(line: Seq<char>) -> Lines {
    split_on(trim_matches(trim(line), '|'), '|').map_values(|p: Seq<char>| trim(p))
}

pub open spec fn field_at(fs: Lines, i: int) -> Seq<char> {
    if 0 <= i < fs.len() {
        fs[i]
    } else {
        seq![]
    }
}

pub type HeaderView = (Seq<char>, Seq<char>, Seq<char>, Seq<char>, Seq<char>, Seq<char>, nat);

/// What identifies a SPED file: the layout version, the period's first
/// and last days, the CNPJ, the state and the state registration, and the
/// number of fields of the `|0000|` line.
pub open spec fn header_of_line(line: Seq<char>) -> HeaderView {
    let fs = bar_fields(line);
    (
        field_at(fs, 1),
        digits(field_at(fs, 3)),
        digits(field_at(fs, 4)),
        digits(field_at(fs, 6)),
        upper_seq(field_at(fs, 8)),
        alnum_upper(field_at(fs, 9)),
        fs.len(),
    )
}

/// The header of the first `|0000|` line of a text.
pub open spec fn sped_header(t: Seq<char>) -> Option<HeaderView> {
    match find_tag(lines_of(t), "|0000|"@, 0) {
        Some(i) => Some(header_of_line(lines_of(t)[i])),
        None => None,
    }
}

pub type SpedHeader = (String, String, String, String, String, String, usize);

pub open spec fn header_view(h: SpedHeader) -> HeaderView {
    (h.0@, h.1@, h.2@, h.3@, h.4@, h.5@, h.6 as nat)
}

pub fn bar_fields_of(line: &Vec<char>) -> (r: Vec<String>)
    ensures
        texts(r@) == bar_fields(line@),
{
    let t = trim_chars(line);
    let inner = trim_matches_chars(&t, '|');
    let parts = split_chars(&inner, '|');
    let mut out: Vec<String> = Vec::new();
    for i in 0..parts.len()
        invariant
            out@.len() == i,
            forall|k: int| 0 <= k < i ==> (#[trigger] out@[k])@ == trim(parts@[k]@),
    {
        out.push(string_of(&trim_chars(&parts[i])));
    }
    proof {
        assert(texts(out@) =~= bar_fields(line@));
    }
    out
}

pub fn field_of(fs: &Vec<String>, i: usize) -> (r: String)
    ensures
        r@ == field_at(texts(fs@), i as int),
{
    if i < fs.len() {
        copy_string(&fs[i])
    } else {
        String::new()
    }
}

/// The header of a SPED text, when it has a `|0000|` line.
pub fn parse_sped_header(sped_text: &str) -> (r: Option<SpedHeader>)
    ensures
        match r {
            Some(h) => sped_header(sped_text@) == Some(header_view(h)),
            None => sped_header(sped_text@) is None,
        },
{
    let v = chars_of(sped_text);
    let ls = lines_chars(&v);
    let mut i: usize = 0;
    let ghost lv = lines_of(sped_text@);
    while i < ls.len()
        invariant
            lv == lines_of(sped_text@),
            ls@.len() == lv.len(),
            forall|k: int| 0 <= k < ls@.len() ==> (#[trigger] ls@[k])@ == lv[k],
            i <= ls@.len(),
            find_tag(lv, "|0000|"@, 0) == find_tag(lv, "|0000|"@, i as int),
        decreases ls@.len() - i,
    {
        let t = trim_chars(&ls[i]);
        let p = chars_of("|0000|");
        if crate::text::starts_with_chars(&t, &p) {
            let fs = bar_fields_of(&ls[i]);
            let h = (
                field_of(&fs, 1),
                only_digits(field_of(&fs, 3).as_str()),
                only_digits(field_of(&fs, 4).as_str()),
                only_digits(field_of(&fs, 6).as_str()),
                ascii_upper(field_of(&fs, 8).as_str()),
                only_alphanum_upper(field_of(&fs, 9).as_str()),
                fs.len(),
            );
            proof {
                assert(has_tag(lv[i as int], "|0000|"@));
                assert(find_tag(lv, "|0000|"@, i as int) == Some(i as int));
                assert(texts(fs@).len() == fs@.len());
                assert(header_view(h) == header_of_line(lv[i as int]));
            }
            return Some(h);
        }
        i = i + 1;
    }
    None
}

fn same_header(a: &SpedHeader, b: &SpedHeader) -> (r: bool)
    ensures
        r == (header_view(*a) == header_view(*b)),
{
    str_eq(a.0.as_str(), b.0.as_str()) && str_eq(a.1.as_str(), b.1.as_str()) && str_eq(
        a.2.as_str(),
        b.2.as_str(),
    ) && str_eq(a.3.as_str(), b.3.as_str()) && str_eq(a.4.as_str(), b.4.as_str()) && str_eq(
        a.5.as_str(),
        b.5.as_str(),
    ) && a.6 == b.6
}

/// Several SPED files can be merged when each has a header and all the
/// headers are equal; fewer than two files always can.
pub open spec fn can_consolidate_spec(ts: Seq<Seq<char>>) -> bool {
    ts.len() < 2 || (forall|i: int| 0 <= i < ts.len() ==> (#[trigger] sped_header(ts[i])) is Some
        && sped_header(ts[i]) == sped_header(ts[0]))
}

pub open spec fn file_texts(fs: Seq<NamedText>) -> Seq<Seq<char>> {
    fs.map_values(|f: NamedText| f.text@)
}

pub fn can_consolidate_sped_files(sped_files: &Vec<NamedText>) -> (r: bool)
    ensures
        r == can_consolidate_spec(file_texts(sped_files@)),
{
    if sped_files.len() < 2 {
        return true;
    }
    let ghost ts = file_texts(sped_files@);
    let base = match parse_sped_header(sped_files[0].text.as_str()) {
        Some(h) => h,
        None => {
            proof {
                assert(sped_header(ts[0]) is None);
            }
            return false;
        },
    };
    let mut all_same = true;
    for i in 0..sped_files.len()
        invariant
            ts == file_texts(sped_files@),
            ts.len() >= 2,
            sped_header(ts[0]) == Some(header_view(base)),
            all_same == forall|k: int| 0 <= k < i ==> (#[trigger] sped_header(ts[k])) is Some
                && sped_header(ts[k]) == sped_header(ts[0]),
            forall|k: int| 0 <= k < i ==> (#[trigger] sped_header(ts[k])) is Some,
    {
        match parse_sped_header(sped_files[i].text.as_str()) {
            Some(h) => {
                if !same_header(&h, &base) {
                    all_same = false;
                }
            },
            None => {
                proof {
                    assert(sped_header(ts[i as int]) is None);
                    assert(!can_consolidate_spec(ts));
                }
                return false;
            },
        }
    }
    all_same
}

// ---------------------------------------------------------------------------
// Merging updated files
// ---------------------------------------------------------------------------

/// The counters of one file's update.
#[derive(Debug, Clone, Copy, PartialEq, Eq)]
pub struct UpdateSpedStats {
    pub total: usize,
    pub updated: usize,
    pub ignored: usize,
    pub missing_xml: usize,
    pub existing: usize,
}

/// The lines of an updated file, without its block 9.
pub open spec fn output_lines(t: Seq<char>) -> Lines {
    strip_block9_spec(text_lines(t))
}

/// The lines that do not start with `|C990|`, in order.
pub open spec fn without_c990(ls: Lines) -> Lines
    decreases ls.len(),
{
    if ls.len() == 0 {
        seq![]
    } else if has_tag(ls.last(), "|C990|"@) {
        without_c990(ls.drop_last())
    } else {
        without_c990(ls.drop_last()).push(ls.last())
    }
}

/// The groups one after the other.
pub open spec fn concat_groups(gs: Seq<Lines>) -> Lines
    decreases gs.len(),
{
    if gs.len() == 0 {
        seq![]
    } else {
        concat_groups(gs.drop_last()) + gs.last()
    }
}

/// The C100 groups of the files, file after file.
pub open spec fn all_groups(ts: Seq<Seq<char>>) -> Lines
    decreases ts.len(),
{
    if ts.len() == 0 {
        seq![]
    } else {
        all_groups(ts.drop_last()) + concat_groups(split_by_c100_spec(output_lines(ts.last())).1)
    }
}

/// Every file has the first file's lines before its first C100 group and,
/// but for `|C990|` lines, after its last one.
pub open spec fn same_frame(ts: Seq<Seq<char>>, t0: Seq<char>) -> bool {
    forall|i: int|
        0 <= i < ts.len() ==> {
            let s = #[trigger] split_by_c100_spec(output_lines(ts[i]));
            let b = split_by_c100_spec(output_lines(t0));
            s.0 == b.0 && without_c990(s.2) == without_c990(b.2)
        }
}

/// The merged file: the common frame around the C100 groups of all the
/// files, block C recounted and block 9 rebuilt; none when the files do
/// not share their frame.
pub open spec fn consolidate_spec(ts: Seq<Seq<char>>) -> Option<(Seq<char>, Seq<char>)> {
    if !same_frame(ts, ts[0]) {
        None
    } else {
        let b = split_by_c100_spec(output_lines(ts[0]));
        let merged = b.0 + all_groups(ts) + without_c990(b.2);
        Some(
            (
                "SPED_CONSOLIDADO_C140C141.txt"@,
                crlf_text(rebuild_block9_spec(strip_block9_spec(update_c990_spec(merged)))),
            ),
        )
    }
}

pub open spec fn output_texts(outputs: Seq<(String, String, UpdateSpedStats)>) -> Seq<Seq<char>> {
    outputs.map_values(|o: (String, String, UpdateSpedStats)| o.1@)
}

fn same_lines(a: &Vec<String>, b: &Vec<String>) -> (r: bool)
    ensures
        r == (texts(a@) == texts(b@)),
{
    if a.len() != b.len() {
        proof {
            assert(texts(a@).len() != texts(b@).len());
        }
        return false;
    }
    for i in 0..a.len()
        invariant
            a@.len() == b@.len(),
            forall|k: int| 0 <= k < i ==> (#[trigger] a@[k])@ == b@[k]@,
    {
        if !str_eq(a[i].as_str(), b[i].as_str()) {
            proof {
                assert(texts(a@)[i as int] != texts(b@)[i as int]);
            }
            return false;
        }
    }
    proof {
        assert(texts(a@) =~= texts(b@));
    }
    true
}

fn drop_c990(lines: &Vec<String>) -> (r: Vec<String>)
    ensures
        texts(r@) == without_c990(texts(lines@)),
{
    let ghost ls = texts(lines@);
    let mut out: Vec<String> = Vec::new();
    proof {
        assert(ls.take(0) =~= Seq::<Seq<char>>::empty());
        assert(texts(out@) =~= Seq::<Seq<char>>::empty());
    }
    for i in 0..lines.len()
        invariant
            ls == texts(lines@),
            texts(out@) == without_c990(ls.take(i as int)),
    {
        proof {
            assert(ls.take(i + 1).drop_last() =~= ls.take(i as int));
            assert(ls.take(i + 1).last() == lines@[i as int]@);
        }
        if !line_has_tag(&lines[i], "|C990|") {
            let ghost before = texts(out@);
            out.push(copy_string(&lines[i]));
            proof {
                assert(texts(out@) =~= before.push(lines@[i as int]@));
            }
        }
    }
    proof {
        assert(ls.take(lines@.len() as int) =~= ls);
    }
    out
}

fn append_lines(out: &mut Vec<String>, lines: &Vec<String>)
    ensures
        texts(final(out)@) == texts(old(out)@) + texts(lines@),
{
    copy_range(lines, 0, lines.len(), out);
    proof {
        assert(texts(lines@).subrange(0, lines@.len() as int) =~= texts(lines@));
    }
}

fn append_groups(out: &mut Vec<String>, groups: &Vec<Vec<String>>)
    ensures
        texts(final(out)@) == texts(old(out)@) + concat_groups(
            crate::sped_blocks::groups_view(groups@),
        ),
{
    let ghost gv = crate::sped_blocks::groups_view(groups@);
    let ghost start = texts(out@);
    proof {
        assert(gv.take(0) =~= Seq::<Lines>::empty());
        assert(start + concat_groups(gv.take(0)) =~= start);
    }
    for g in 0..groups.len()
        invariant
            gv == crate::sped_blocks::groups_view(groups@),
            texts(out@) == start + concat_groups(gv.take(g as int)),
    {
        append_lines(out, &groups[g]);
        proof {
            assert(gv.take(g + 1).drop_last() =~= gv.take(g as int));
            assert(gv.take(g + 1).last() == texts(groups@[g as int]@));
        }
    }
    proof {
        assert(gv.take(groups@.len() as int) =~= gv);
    }
}

/// Merges updated SPED files into one, when they share the lines around
/// their C100 groups.
pub fn consolidate_sped_outputs(outputs: &Vec<(String, String, UpdateSpedStats)>) -> (r: Option<
    (String, String),
>)
    requires
        outputs@.len() > 0,
    ensures
        match r {
            Some((name, text)) => consolidate_spec(output_texts(outputs@)) == Some((name@, text@)),
            None => consolidate_spec(output_texts(outputs@)) is None,
        },
{
    let ghost ts = output_texts(outputs@);
    let base_lines = strip_block9(&non_blank_text_lines(outputs[0].1.as_str(), false));
    let (base_prefix, _base_groups, base_suffix) = split_sped_by_c100(&base_lines);
    let base_suffix_no_c990 = drop_c990(&base_suffix);
    let mut all: Vec<String> = Vec::new();
    proof {
        assert(ts.take(0) =~= Seq::<Seq<char>>::empty());
        assert(texts(all@) =~= Seq::<Seq<char>>::empty());
    }
    for i in 0..outputs.len()
        invariant
            ts == output_texts(outputs@),
            ts.len() == outputs@.len(),
            texts(base_prefix@) == split_by_c100_spec(output_lines(ts[0])).0,
            texts(base_suffix_no_c990@) == without_c990(split_by_c100_spec(output_lines(ts[0])).2),
            same_frame(ts.take(i as int), ts[0]),
            texts(all@) == all_groups(ts.take(i as int)),
    {
        let lines = strip_block9(&non_blank_text_lines(outputs[i].1.as_str(), false));
        let (prefix, groups, suffix) = split_sped_by_c100(&lines);
        let suffix_no_c990 = drop_c990(&suffix);
        proof {
            assert(ts[i as int] == outputs@[i as int].1@);
        }
        if !same_lines(&prefix, &base_prefix) || !same_lines(&suffix_no_c990, &base_suffix_no_c990) {
            proof {
                assert(!same_frame(ts, ts[0])) by {
                    let s = split_by_c100_spec(output_lines(ts[i as int]));
                    assert(s == split_by_c100_spec(output_lines(ts[i as int])));
                }
            }
            return None;
        }
        append_groups(&mut all, &groups);
        proof {
            assert(ts.take(i + 1).drop_last() =~= ts.take(i as int));
            assert(ts.take(i + 1).last() == ts[i as int]);
            assert forall|k: int| 0 <= k < ts.take(i + 1).len() implies {
                let s = #[trigger] split_by_c100_spec(output_lines(ts.take(i + 1)[k]));
                let b = split_by_c100_spec(output_lines(ts[0]));
                s.0 == b.0 && without_c990(s.2) == without_c990(b.2)
            } by {
                if k < i {
                    assert(ts.take(i + 1)[k] == ts.take(i as int)[k]);
                }
            }
        }
    }
    proof {
        assert(ts.take(outputs@.len() as int) =~= ts);
    }
    let mut merged: Vec<String> = Vec::new();
    append_lines(&mut merged, &base_prefix);
    append_lines(&mut merged, &all);
    append_lines(&mut merged, &base_suffix_no_c990);
    let merged = update_c990(&merged);
    let merged = rebuild_block9(&strip_block9(&merged));
    let name = str_to_string("SPED_CONSOLIDADO_C140C141.txt");
    let text = crlf_text_of(&merged);
    proof {
        assert(Seq::<Seq<char>>::empty() + texts(base_prefix@) + texts(all@) + texts(
            base_suffix_no_c990@,
        ) =~= texts(base_prefix@) + all_groups(ts) + without_c990(
            split_by_c100_spec(output_lines(ts[0])).2,
        ));
    }
    Some((name, text))
}

// ---------------------------------------------------------------------------
// Updating one file with C140/C141 records
// ---------------------------------------------------------------------------

/// The lines a file is updated from: its non-blank lines without trailing
/// `\r`, without block 9.
pub open spec fn update_source(t: Seq<char>) -> Lines {
    strip_block9_spec(text_lines_no_cr(t))
}

/// What the C100 line of a group gives for building its records: the
/// document key and the document and entry dates, digits only.
pub open spec fn c100_key(line: Seq<char>) -> (Seq<char>, Seq<char>, Seq<char>) {
    let fs = bar_fields(line);
    (digits(field_at(fs, 8)), digits(field_at(fs, 9)), digits(field_at(fs, 10)))
}

/// The keys of the C100 groups of a file, in order.
pub open spec fn c100_keys(t: Seq<char>) -> Seq<(Seq<char>, Seq<char>, Seq<char>)> {
    let ls = update_source(t);
    crate::sped_blocks::tag_indices(ls, "|C100|"@).map_values(|j: int| c100_key(ls[j]))
}

/// The data needed to build the invoice records of one C100 group.
pub struct C100Request {
    pub chave: String,
    pub dt_doc: String,
    pub dt_es: String,
}

pub open spec fn request_view(r: C100Request) -> (Seq<char>, Seq<char>, Seq<char>) {
    (r.chave@, r.dt_doc@, r.dt_es@)
}

/// Where a group that starts before `from` ends: the first line at or
/// after `from` that starts with `|C100|` or `|C990|`, or the end.
pub open spec fn find_boundary(ls: Lines, from: int) -> int
    decreases ls.len() - from,
{
    if from < 0 || from >= ls.len() {
        ls.len() as int
    } else if has_tag(ls[from], "|C100|"@) || has_tag(ls[from], "|C990|"@) {
        from
    } else {
        find_boundary(ls, from + 1)
    }
}

pub open spec fn is_c14x_line(l: Seq<char>) -> bool {
    has_tag(l, "|C140|"@) || has_tag(l, "|C141|"@)
}

pub open spec fn has_c14x_line(g: Lines) -> bool {
    exists|j: int| 0 <= j < g.len() && is_c14x_line(#[trigger] g[j])
}

/// The lines that are not C140/C141 records, in order.
pub open spec fn without_c14x_lines(g: Lines) -> Lines
    decreases g.len(),
{
    if g.len() == 0 {
        seq![]
    } else if is_c14x_line(g.last()) {
        without_c14x_lines(g.drop_last())
    } else {
        without_c14x_lines(g.drop_last()).push(g.last())
    }
}

/// The group with the records inserted before its first `|C170|` line (at
/// its end when it has none).
pub open spec fn insert_payload(g: Lines, c: Lines) -> Lines {
    let at = match find_tag(g, "|C170|"@, 0) {
        Some(a) => a,
        None => g.len() as int,
    };
    g.take(at) + c + g.skip(at)
}

/// Counters as numbers: groups, updated, ignored, without XML, with
/// records already.
pub type StatsView = (nat, nat, nat, nat, nat);

pub open spec fn stats_add(a: StatsView, b: StatsView) -> StatsView {
    (a.0 + b.0, a.1 + b.1, a.2 + b.2, a.3 + b.3, a.4 + b.4)
}

pub open spec fn stats_view(s: UpdateSpedStats) -> StatsView {
    (s.total as nat, s.updated as nat, s.ignored as nat, s.missing_xml as nat, s.existing as nat)
}

/// One group after the update, and what it counts.  `payload` is `None`
/// when the group's document has no XML, else the records built for it
/// (none when it has no installment).  A group that already has records
/// keeps them unless `recriar`, in which case they are replaced.
pub open spec fn process_group(g: Lines, payload: Option<Lines>, recriar: bool) -> (Lines, StatsView) {
    let has = has_c14x_line(g);
    let ex: nat = if has {
        1
    } else {
        0
    };
    match payload {
        None => (g, (1, 0, 0, 1, ex)),
        Some(c) => if has && !recriar {
            (g, (1, 0, 1, 0, ex))
        } else {
            let g2 = if has {
                without_c14x_lines(g)
            } else {
                g
            };
            if c.len() == 0 {
                (g2, (1, 0, 1, 0, ex))
            } else {
                (insert_payload(g2, c), (1, 1, 0, 0, ex))
            }
        },
    }
}

pub open spec fn payload_at(payloads: Seq<Option<Lines>>, k: int) -> Option<Lines> {
    if 0 <= k < payloads.len() {
        payloads[k]
    } else {
        None
    }
}

/// The lines from `i` on after the update, the `k`-th group being the next.
pub open spec fn update_walk(
    ls: Lines,
    i: int,
    k: int,
    payloads: Seq<Option<Lines>>,
    recriar: bool,
) -> (Lines, StatsView)
    decreases ls.len() - i,
{
    if i < 0 || i >= ls.len() {
        (seq![], (0, 0, 0, 0, 0))
    } else if !has_tag(ls[i], "|C100|"@) {
        let rest = update_walk(ls, i + 1, k, payloads, recriar);
        (seq![ls[i]] + rest.0, rest.1)
    } else {
        let end = find_boundary(ls, i + 1);
        proof {
            lemma_find_boundary(ls, i + 1);
        }
        let g = process_group(ls.subrange(i, end), payload_at(payloads, k), recriar);
        let rest = update_walk(ls, end, k + 1, payloads, recriar);
        (g.0 + rest.0, stats_add(g.1, rest.1))
    }
}

pub proof fn lemma_find_boundary(ls: Lines, from: int)
    requires
        0 <= from <= ls.len(),
    ensures
        from <= find_boundary(ls, from) <= ls.len(),
    decreases ls.len() - from,
{
    if from < ls.len() && !(has_tag(ls[from], "|C100|"@) || has_tag(ls[from], "|C990|"@)) {
        lemma_find_boundary(ls, from + 1);
    }
}

/// The file updated with the records of its groups (`payloads[k]` for the
/// `k`-th C100 group; a missing entry counts as a document without XML),
/// block C recounted and block 9 rebuilt, as text with `\r\n` line ends.
pub open spec fn update_spec(t: Seq<char>, recriar: bool, payloads: Seq<Option<Lines>>) -> (Seq<char>, StatsView) {
    let w = update_walk(update_source(t), 0, 0, payloads, recriar);
    (crlf_text(rebuild_block9_spec(update_c990_spec(w.0))), w.1)
}

/// An updated file and its counters.
pub struct UpdatedSpedOutput {
    pub text: String,
    pub stats: UpdateSpedStats,
}

pub open spec fn payloads_view(p: Seq<Option<Vec<String>>>) -> Seq<Option<Lines>> {
    p.map_values(
        |o: Option<Vec<String>>|
            match o {
                Some(v) => Some(texts(v@)),
                None => None,
            },
    )
}

fn c100_request_of(line: &String) -> (r: C100Request)
    ensures
        request_view(r) == c100_key(line@),
{
    let fs = bar_fields_of(&chars_of_string(line));
    C100Request {
        chave: only_digits(field_of(&fs, 8).as_str()),
        dt_doc: only_digits(field_of(&fs, 9).as_str()),
        dt_es: only_digits(field_of(&fs, 10).as_str()),
    }
}

/// The key and dates of each C100 group of a file, in order: what the
/// records of each group are built from.
pub fn sped_c100_requests(sped_text: &str) -> (r: Vec<C100Request>)
    ensures
        r@.map_values(|q: C100Request| request_view(q)) == c100_keys(sped_text@),
{
    let lines = strip_block9(&non_blank_text_lines(sped_text, true));
    let ghost ls = texts(lines@);
    let mut out: Vec<C100Request> = Vec::new();
    proof {
        assert(ls.take(0) =~= Seq::<Seq<char>>::empty());
        assert(out@.map_values(|q: C100Request| request_view(q)) =~= crate::sped_blocks::tag_indices(
            ls.take(0),
            "|C100|"@,
        ).map_values(|j: int| c100_key(ls[j])));
    }
    for i in 0..lines.len()
        invariant
            ls == texts(lines@),
            out@.map_values(|q: C100Request| request_view(q)) == crate::sped_blocks::tag_indices(
                ls.take(i as int),
                "|C100|"@,
            ).map_values(|j: int| c100_key(ls[j])),
    {
        proof {
            assert(ls.take(i + 1).drop_last() =~= ls.take(i as int));
            assert(ls.take(i + 1).last() == lines@[i as int]@);
        }
        if line_has_tag(&lines[i], "|C100|") {
            let ghost before = out@.map_values(|q: C100Request| request_view(q));
            out.push(c100_request_of(&lines[i]));
            proof {
                let ix = crate::sped_blocks::tag_indices(ls.take(i as int), "|C100|"@);
                assert(crate::sped_blocks::tag_indices(ls.take(i + 1), "|C100|"@) == ix.push(
                    i as int,
                ));
                assert(out@.map_values(|q: C100Request| request_view(q)) =~= before.push(
                    c100_key(ls[i as int]),
                ));
                assert(ix.push(i as int).map_values(|j: int| c100_key(ls[j])) =~= ix.map_values(
                    |j: int| c100_key(ls[j]),
                ).push(c100_key(ls[i as int])));
            }
        }
    }
    proof {
        assert(ls.take(lines@.len() as int) =~= ls);
    }
    out
}

fn boundary_from(lines: &Vec<String>, from: usize) -> (r: usize)
    requires
        from <= lines@.len(),
    ensures
        r as int == find_boundary(texts(lines@), from as int),
{
    let ghost ls = texts(lines@);
    let mut j = from;
    while j < lines.len()
        invariant
            ls == texts(lines@),
            from <= j <= lines@.len(),
            find_boundary(ls, from as int) == find_boundary(ls, j as int),
        decreases lines@.len() - j,
    {
        if line_has_tag(&lines[j], "|C100|") || line_has_tag(&lines[j], "|C990|") {
            return j;
        }
        j = j + 1;
    }
    j
}

fn is_c14x_exec(line: &String) -> (r: bool)
    ensures
        r == is_c14x_line(line@),
{
    line_has_tag(line, "|C140|") || line_has_tag(line, "|C141|")
}

fn group_has_c14x(g: &Vec<String>) -> (r: bool)
    ensures
        r == has_c14x_line(texts(g@)),
{
    for j in 0..g.len()
        invariant
            forall|m: int| 0 <= m < j ==> !is_c14x_line(#[trigger] texts(g@)[m]),
    {
        if is_c14x_exec(&g[j]) {
            proof {
                assert(is_c14x_line(texts(g@)[j as int]));
            }
            return true;
        }
    }
    false
}

fn drop_c14x(g: &Vec<String>) -> (r: Vec<String>)
    ensures
        texts(r@) == without_c14x_lines(texts(g@)),
{
    let ghost gv = texts(g@);
    let mut out: Vec<String> = Vec::new();
    proof {
        assert(gv.take(0) =~= Seq::<Seq<char>>::empty());
        assert(texts(out@) =~= Seq::<Seq<char>>::empty());
    }
    for j in 0..g.len()
        invariant
            gv == texts(g@),
            texts(out@) == without_c14x_lines(gv.take(j as int)),
    {
        proof {
            assert(gv.take(j + 1).drop_last() =~= gv.take(j as int));
            assert(gv.take(j + 1).last() == g@[j as int]@);
        }
        if !is_c14x_exec(&g[j]) {
            let ghost before = texts(out@);
            out.push(copy_string(&g[j]));
            proof {
                assert(texts(out@) =~= before.push(g@[j as int]@));
            }
        }
    }
    proof {
        assert(gv.take(g@.len() as int) =~= gv);
    }
    out
}

fn insert_payload_exec(g: &Vec<String>, c: &Vec<String>) -> (r: Vec<String>)
    ensures
        texts(r@) == insert_payload(texts(g@), texts(c@)),
{
    proof {
        lemma_find_tag(texts(g@), "|C170|"@, 0);
    }
    let at = match find_tag_from(g, "|C170|", 0) {
        Some(a) => a,
        None => g.len(),
    };
    let mut out: Vec<String> = Vec::new();
    copy_range(g, 0, at, &mut out);
    append_lines(&mut out, c);
    copy_range(g, at, g.len(), &mut out);
    proof {
        let gv = texts(g@);
        assert(gv.subrange(0, at as int) =~= gv.take(at as int));
        assert(gv.subrange(at as int, gv.len() as int) =~= gv.skip(at as int));
        assert(Seq::<Seq<char>>::empty() + gv.take(at as int) =~= gv.take(at as int));
    }
    out
}

fn unit_stats(updated: bool, ignored: bool, missing: bool, existing: bool) -> (r: UpdateSpedStats)
    ensures
        stats_view(r) == (
            1nat,
            if updated {
                1nat
            } else {
                0nat
            },
            if ignored {
                1nat
            } else {
                0nat
            },
            if missing {
                1nat
            } else {
                0nat
            },
            if existing {
                1nat
            } else {
                0nat
            },
        ),
{
    UpdateSpedStats {
        total: 1,
        updated: if updated {
            1
        } else {
            0
        },
        ignored: if ignored {
            1
        } else {
            0
        },
        missing_xml: if missing {
            1
        } else {
            0
        },
        existing: if existing {
            1
        } else {
            0
        },
    }
}

fn process_group_exec(g: Vec<String>, payload: &Option<Vec<String>>, recriar: bool) -> (r: (
    Vec<String>,
    UpdateSpedStats,
))
    ensures
        (texts(r.0@), stats_view(r.1)) == process_group(
            texts(g@),
            match payload {
                Some(v) => Some(texts(v@)),
                None => None,
            },
            recriar,
        ),
{
    let has = group_has_c14x(&g);
    match payload {
        None => (g, unit_stats(false, false, true, has)),
        Some(c) => {
            if has && !recriar {
                return (g, unit_stats(false, true, false, has));
            }
            let g2 = if has {
                drop_c14x(&g)
            } else {
                g
            };
            if c.len() == 0 {
                (g2, unit_stats(false, true, false, has))
            } else {
                (insert_payload_exec(&g2, c), unit_stats(true, false, false, has))
            }
        },
    }
}

/// Updates one SPED file with the invoice records of its C100 groups:
/// `payloads[k]` holds the records built for the `k`-th group (see
/// `sped_c100_requests`), or `None` when its document has no XML.
pub fn update_sped_text_with_c140_c141(
    sped_text: &str,
    recriar: bool,
    payloads: &Vec<Option<Vec<String>>>,
) -> (r: Result<UpdatedSpedOutput, String>)
    ensures
        r matches Ok(o) && (o.text@, stats_view(o.stats)) == update_spec(
            sped_text@,
            recriar,
            payloads_view(payloads@),
        ),
{
    let lines = strip_block9(&non_blank_text_lines(sped_text, true));
    let ghost ls = texts(lines@);
    let ghost pv = payloads_view(payloads@);
    let ghost whole = update_walk(ls, 0, 0, pv, recriar);
    let mut out: Vec<String> = Vec::new();
    let mut stats = UpdateSpedStats { total: 0, updated: 0, ignored: 0, missing_xml: 0, existing: 0 };
    let mut i: usize = 0;
    let mut k: usize = 0;
    proof {
        assert(texts(out@) + whole.0 =~= whole.0);
    }
    while i < lines.len()
        invariant
            ls == texts(lines@),
            pv == payloads_view(payloads@),
            whole == update_walk(ls, 0, 0, pv, recriar),
            i <= lines@.len(),
            k <= i,
            stats.total <= k && stats.updated <= k && stats.ignored <= k && stats.missing_xml <= k
                && stats.existing <= k,
            whole.0 == texts(out@) + update_walk(ls, i as int, k as int, pv, recriar).0,
            whole.1 == stats_add(stats_view(stats), update_walk(ls, i as int, k as int, pv, recriar).1),
        decreases lines@.len() - i,
    {
        let ghost rest = update_walk(ls, i as int, k as int, pv, recriar);
        if !line_has_tag(&lines[i], "|C100|") {
            let ghost before = texts(out@);
            out.push(copy_string(&lines[i]));
            proof {
                let next = update_walk(ls, i + 1, k as int, pv, recriar);
                assert(rest == (seq![ls[i as int]] + next.0, next.1));
                assert(texts(out@) =~= before.push(ls[i as int]));
                assert(before + rest.0 =~= texts(out@) + next.0);
            }
            i = i + 1;
        } else {
            let end = boundary_from(&lines, i + 1);
            proof {
                lemma_find_boundary(ls, i + 1);
            }
            let mut g: Vec<String> = Vec::new();
            copy_range(&lines, i, end, &mut g);
            proof {
                assert(Seq::<Seq<char>>::empty() + ls.subrange(i as int, end as int) =~= ls.subrange(
                    i as int,
                    end as int,
                ));
            }
            let none: Option<Vec<String>> = None;
            let payload = if k < payloads.len() {
                &payloads[k]
            } else {
                &none
            };
            proof {
                assert(match payload {
                    Some(v) => Some(texts(v@)),
                    None => None,
                } == payload_at(pv, k as int));
            }
            let (gout, d) = process_group_exec(g, payload, recriar);
            let ghost before = texts(out@);
            append_lines(&mut out, &gout);
            proof {
                let next = update_walk(ls, end as int, k + 1, pv, recriar);
                let pg = process_group(ls.subrange(i as int, end as int), payload_at(pv, k as int), recriar);
                assert(rest == (pg.0 + next.0, stats_add(pg.1, next.1)));
                assert(before + rest.0 =~= texts(out@) + next.0);
            }
            stats = UpdateSpedStats {
                total: stats.total + d.total,
                updated: stats.updated + d.updated,
                ignored: stats.ignored + d.ignored,
                missing_xml: stats.missing_xml + d.missing_xml,
                existing: stats.existing + d.existing,
            };
            i = end;
            k = k + 1;
        }
    }
    proof {
        assert(texts(out@) + Seq::<Seq<char>>::empty() =~= texts(out@));
    }
    let out2 = update_c990(&out);
    let out3 = rebuild_block9(&out2);
    let text = crlf_text_of(&out3);
    Ok(UpdatedSpedOutput { text, stats })
}

} // verus!
