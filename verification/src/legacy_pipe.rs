//! Legacy `|`-separated exports: one row per non-blank line.
use vstd::prelude::*;

use crate::sped::texts;
use crate::text::{
    chars_of, is_blank, is_blank_chars, lines_chars, lines_of, split_chars, split_on, string_of,
    trim, trim_chars,
};

verus! {

/// A row of a legacy pipe file.
pub struct LegacyPipeRow {
    pub fields: Vec<String>,
}

/// The fields of a line: its pieces between `|`, each trimmed.
pub open spec fn pipe_fields(line: Seq<char>) -> Seq<Seq<char>> {
    split_on(line, '|').map_values(|p: Seq<char>| trim(p))
}

/// The non-blank lines, in order.
pub open spec fn non_blank_lines(lines: Seq<Seq<char>>) -> Seq<Seq<char>>
    decreases lines.len(),
{
    if lines.len() == 0 {
        seq![]
    } else if is_blank(lines.last()) {
        non_blank_lines(lines.drop_last())
    } else {
        non_blank_lines(lines.drop_last()).push(lines.last())
    }
}

/// The rows of a legacy text: the fields of each non-blank line.
pub open spec fn legacy_rows(content: Seq<char>) -> Seq<Seq<Seq<char>>> {
    non_blank_lines(lines_of(content)).map_values(|l: Seq<char>| pipe_fields(l))
}

pub open spec fn rows_view(rows: Seq<LegacyPipeRow>) -> Seq<Seq<Seq<char>>> {
    rows.map_values(|r: LegacyPipeRow| texts(r.fields@))
}

pub fn fields_of(line: &Vec<char>) -> (r: Vec<String>)
    ensures
        texts(r@) == pipe_fields(line@),
{
    let parts = split_chars(line, '|');
    let mut out: Vec<String> = Vec::new();
    for i in 0..parts.len()
        invariant
            out@.len() == i,
            forall|k: int| 0 <= k < i ==> (#[trigger] out@[k])@ == trim(parts@[k]@),
    {
        out.push(string_of(&trim_chars(&parts[i])));
    }
    proof {
        assert(texts(out@) =~= pipe_fields(line@));
    }
    out
}

/// Reads a legacy pipe text: one row per non-blank line, its fields split
/// on `|` and trimmed.
pub fn parse_legacy_pipe(content: &str) -> (r: Vec<LegacyPipeRow>)
    ensures
        rows_view(r@) == legacy_rows(content@),
{
    let v = chars_of(content);
    let lines = lines_chars(&v);
    let ghost ls = lines_of(content@);
    let mut out: Vec<LegacyPipeRow> = Vec::new();
    proof {
        assert(ls.take(0) =~= Seq::<Seq<char>>::empty());
        assert(rows_view(out@) =~= Seq::<Seq<Seq<char>>>::empty());
    }
    for i in 0..lines.len()
        invariant
            lines@.len() == ls.len(),
            forall|k: int| 0 <= k < lines@.len() ==> (#[trigger] lines@[k])@ == ls[k],
            rows_view(out@) == non_blank_lines(ls.take(i as int)).map_values(
                |l: Seq<char>| pipe_fields(l),
            ),
    {
        proof {
            assert(ls.take(i + 1).drop_last() =~= ls.take(i as int));
            assert(ls.take(i + 1).last() == lines@[i as int]@);
        }
        if !is_blank_chars(&lines[i]) {
            let ghost before = rows_view(out@);
            out.push(LegacyPipeRow { fields: fields_of(&lines[i]) });
            proof {
                assert(rows_view(out@) =~= before.push(pipe_fields(lines@[i as int]@)));
            }
        }
    }
    proof {
        assert(ls.take(lines@.len() as int) =~= ls);
    }
    out
}

} // verus!
