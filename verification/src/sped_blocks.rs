//! Block-level edits of SPED texts held as lists of lines: removing and
//! rebuilding block 9 (the register counts), recounting block C, and
//! cutting the text around its C100 (document) groups.
use vstd::prelude::*;

use crate::numbers::{
    lemma_text_lt_asymmetric, lemma_text_lt_irreflexive, lemma_text_lt_total,
    lemma_text_lt_transitive, text_lt, text_lt_chars,
};
use crate::sped::texts;
use crate::text::{
    append_chars, append_str, chars_eq, chars_of, chars_of_string, copy_string, decimal,
    decimal_chars, decimal_string, split_chars, split_on, starts_with, str_starts_with,
    string_of, strip_leading, strip_trailing, trim, trim_chars, trim_matches, trim_matches_chars, trim_str,
};

verus! {

/// The trimmed line starts with `tag`.
pub open spec fn has_tag(line: Seq<char>, tag: Seq<char>) -> bool {
    starts_with(trim(line), tag)
}

/// The first index at or after `from` whose line starts with `tag`.
pub open spec fn find_tag(ls: Seq<Seq<char>>, tag: Seq<char>, from: int) -> Option<int>
    decreases ls.len() - from,
{
    if from < 0 || from >= ls.len() {
        None
    } else if has_tag(ls[from], tag) {
        Some(from)
    } else {
        find_tag(ls, tag, from + 1)
    }
}

pub proof fn lemma_find_tag(ls: Seq<Seq<char>>, tag: Seq<char>, from: int)
    requires
        0 <= from,
    ensures
        match find_tag(ls, tag, from) {
            Some(i) => from <= i < ls.len() && has_tag(ls[i], tag) && forall|j: int|
                from <= j < i ==> !has_tag(#[trigger] ls[j], tag),
            None => forall|j: int| from <= j < ls.len() ==> !has_tag(#[trigger] ls[j], tag),
        },
    decreases ls.len() - from,
{
    if from < ls.len() && !has_tag(ls[from], tag) {
        lemma_find_tag(ls, tag, from + 1);
    }
}

pub fn line_has_tag(line: &String, tag: &str) -> (r: bool)
    ensures
        r == has_tag(line@, tag@),
{
    let t = trim_str(line.as_str());
    str_starts_with(t.as_str(), tag)
}

pub fn find_tag_from(lines: &Vec<String>, tag: &str, from: usize) -> (r: Option<usize>)
    ensures
        match find_tag(texts(lines@), tag@, from as int) {
            Some(i) => r == Some(i as usize),
            None => r is None,
        },
{
    let ghost ls = texts(lines@);
    let mut i = from;
    while i < lines.len()
        invariant
            ls == texts(lines@),
            from <= i,
            find_tag(ls, tag@, from as int) == find_tag(ls, tag@, i as int),
        decreases lines@.len() - i,
    {
        if line_has_tag(&lines[i], tag) {
            return Some(i);
        }
        i = i + 1;
    }
    None
}

pub fn copy_range(lines: &Vec<String>, a: usize, b: usize, out: &mut Vec<String>)
    requires
        a <= b <= lines@.len(),
    ensures
        texts(final(out)@) == texts(old(out)@) + texts(lines@).subrange(a as int, b as int),
{
    let ghost start = texts(out@);
    let mut k = a;
    while k < b
        invariant
            a <= k <= b <= lines@.len(),
            texts(out@) == start + texts(lines@).subrange(a as int, k as int),
        decreases b - k,
    {
        let ghost before = texts(out@);
        out.push(copy_string(&lines[k]));
        proof {
            assert(texts(out@) =~= before.push(lines@[k as int]@));
            assert(texts(lines@)[k as int] == lines@[k as int]@);
            assert(texts(lines@).subrange(a as int, k + 1) =~= texts(lines@).subrange(
                a as int,
                k as int,
            ).push(lines@[k as int]@));
            assert(texts(out@) =~= start + texts(lines@).subrange(a as int, k + 1));
        }
        k = k + 1;
    }
}

// ---------------------------------------------------------------------------
// Block 9 removal and block C recount
// ---------------------------------------------------------------------------

/// The text without its block 9: from the `|9001|` line through the first
/// `|9999|` line after it (or through the last line when there is none).
pub open spec fn strip_block9_spec(ls: Seq<Seq<char>>) -> Seq<Seq<char>> {
    match find_tag(ls, "|9001|"@, 0) {
        None => ls,
        Some(start) => {
            let end = match find_tag(ls, "|9999|"@, start) {
                Some(e) => e,
                None => ls.len() - 1,
            };
            ls.take(start) + if end + 1 < ls.len() {
                ls.skip(end + 1)
            } else {
                seq![]
            }
        },
    }
}

pub fn strip_block9(lines: &Vec<String>) -> (r: Vec<String>)
    ensures
        texts(r@) == strip_block9_spec(texts(lines@)),
{
    let mut out: Vec<String> = Vec::new();
    proof {
        lemma_find_tag(texts(lines@), "|9001|"@, 0);
    }
    match find_tag_from(lines, "|9001|", 0) {
        None => {
            copy_range(lines, 0, lines.len(), &mut out);
            proof {
                assert(texts(lines@).subrange(0, lines@.len() as int) =~= texts(lines@));
                assert(Seq::<Seq<char>>::empty() + texts(lines@) =~= texts(lines@));
            }
        },
        Some(start) => {
            proof {
                lemma_find_tag(texts(lines@), "|9999|"@, start as int);
            }
            let end = match find_tag_from(lines, "|9999|", start) {
                Some(e) => e,
                None => lines.len() - 1,
            };
            let n = lines.len();
            copy_range(lines, 0, start, &mut out);
            let ghost mid = texts(out@);
            if end + 1 < n {
                copy_range(lines, end + 1, lines.len(), &mut out);
                proof {
                    assert(texts(lines@).subrange(end + 1, lines@.len() as int) =~= texts(
                        lines@,
                    ).skip(end + 1));
                }
            }
            proof {
                assert(texts(lines@).subrange(0, start as int) =~= texts(lines@).take(
                    start as int,
                ));
                assert(Seq::<Seq<char>>::empty() + texts(lines@).take(start as int) =~= texts(
                    lines@,
                ).take(start as int));
                if end + 1 >= lines.len() {
                    assert(mid + Seq::<Seq<char>>::empty() =~= mid);
                }
            }
        },
    }
    out
}

/// The `|C990|` line that counts the lines of block C.
pub open spec fn c990_line(n: nat) -> Seq<char> {
    "|C990|"@ + decimal(n) + "|"@
}

/// Block C's closing line rewritten to count the lines from the first
/// `|C001|` line through the first `|C990|` line.
pub open spec fn update_c990_spec(ls: Seq<Seq<char>>) -> Seq<Seq<char>> {
    match (find_tag(ls, "|C001|"@, 0), find_tag(ls, "|C990|"@, 0)) {
        (Some(s), Some(e)) => if e >= s {
            ls.update(e, c990_line((e - s + 1) as nat))
        } else {
            ls
        },
        _ => ls,
    }
}

pub fn update_c990(lines: &Vec<String>) -> (r: Vec<String>)
    ensures
        texts(r@) == update_c990_spec(texts(lines@)),
{
    let mut out: Vec<String> = Vec::new();
    copy_range(lines, 0, lines.len(), &mut out);
    proof {
        assert(texts(lines@).subrange(0, lines@.len() as int) =~= texts(lines@));
        assert(Seq::<Seq<char>>::empty() + texts(lines@) =~= texts(lines@));
        lemma_find_tag(texts(lines@), "|C001|"@, 0);
        lemma_find_tag(texts(lines@), "|C990|"@, 0);
    }
    let idx_c001 = find_tag_from(lines, "|C001|", 0);
    let idx_c990 = find_tag_from(lines, "|C990|", 0);
    match (idx_c001, idx_c990) {
        (Some(start), Some(end)) => {
            if end >= start {
                let n = (end - start + 1) as u128;
                let mut v = chars_of("|C990|");
                append_chars(&mut v, &decimal_chars(n));
                append_str(&mut v, "|");
                let ghost before = texts(out@);
                out.set(end, string_of(&v));
                proof {
                    assert(texts(out@) =~= before.update(end as int, c990_line(n as nat)));
                }
            }
        },
        _ => {},
    }
    out
}

// ---------------------------------------------------------------------------
// Block 9: the register counts
// ---------------------------------------------------------------------------

/// The register of a line: the first field of a line that starts with `|`
/// (empty for any other line).
pub open spec fn line_reg(line: Seq<char>) -> Seq<char> {
    let t = trim(line);
    if starts_with(t, seq!['|']) {
        split_on(trim_matches(t, '|'), '|')[0]
    } else {
        seq![]
    }
}

/// How many lines have register `r`.
pub open spec fn count_reg(ls: Seq<Seq<char>>, r: Seq<char>) -> nat
    decreases ls.len(),
{
    if ls.len() == 0 {
        0
    } else {
        count_reg(ls.drop_last(), r) + if line_reg(ls.last()) == r {
            1nat
        } else {
            0nat
        }
    }
}

/// A register that the lines use.
pub open spec fn counted(ls: Seq<Seq<char>>, r: Seq<char>) -> bool {
    r.len() > 0 && count_reg(ls, r) > 0
}

/// A register and its number of lines.
pub type RegCount = (Seq<char>, nat);

pub open spec fn has_key(es: Seq<RegCount>, r: Seq<char>) -> bool {
    exists|i: int| 0 <= i < es.len() && (#[trigger] es[i]).0 == r
}

pub open spec fn has_entry(es: Seq<RegCount>, e: RegCount) -> bool {
    exists|i: int| 0 <= i < es.len() && #[trigger] es[i] == e
}

/// The registers in strictly increasing text order.
pub open spec fn keys_sorted(es: Seq<RegCount>) -> bool {
    forall|i: int, j: int| 0 <= i < j < es.len() ==> text_lt(#[trigger] es[i].0, #[trigger] es[j].0)
}

/// The registers of block 9 that always count one line.
pub open spec fn is_fixed_block9_reg(r: Seq<char>) -> bool {
    r == "9001"@ || r == "9990"@ || r == "9999"@
}

/// The count written for `r` when block 9 lists `n` registers: one for
/// 9001, 9990 and 9999; for 9900 the number of registers listed before it
/// was added, plus one; the number of lines otherwise.
pub open spec fn block9_count(ls: Seq<Seq<char>>, n: nat, r: Seq<char>) -> nat {
    if is_fixed_block9_reg(r) {
        1
    } else if r == "9900"@ {
        if counted(ls, "9900"@) {
            n + 1
        } else {
            n
        }
    } else {
        count_reg(ls, r)
    }
}

/// The 9900 entries of block 9 for `ls`: every register the lines use and
/// the four registers of block 9, in text order, each with its count.
pub open spec fn block9_entries_ok(es: Seq<RegCount>, ls: Seq<Seq<char>>) -> bool {
    &&& keys_sorted(es)
    &&& forall|r: Seq<char>|
        #[trigger] has_key(es, r) <==> (counted(ls, r) || is_fixed_block9_reg(r) || r == "9900"@)
    &&& forall|i: int| 0 <= i < es.len() ==> (#[trigger] es[i]).1 == block9_count(ls, es.len(), es[i].0)
}

pub open spec fn block9_entries(ls: Seq<Seq<char>>) -> Seq<RegCount> {
    choose|es: Seq<RegCount>| block9_entries_ok(es, ls)
}

pub open spec fn entry_line(e: RegCount) -> Seq<char> {
    "|9900|"@ + e.0 + "|"@ + decimal(e.1) + "|"@
}

/// Block 9 for `es` after `n` lines: the opening line, one 9900 line per
/// entry, the line that counts block 9 and the line that counts the file.
pub open spec fn block9_lines(es: Seq<RegCount>, n: nat) -> Seq<Seq<char>> {
    seq!["|9001|0|"@] + es.map_values(|e: RegCount| entry_line(e)) + seq![
        "|9990|"@ + decimal(es.len() + 3) + "|"@,
        "|9999|"@ + decimal(n + es.len() + 3) + "|"@,
    ]
}

/// The lines followed by a fresh block 9.
pub open spec fn rebuild_block9_spec(ls: Seq<Seq<char>>) -> Seq<Seq<char>> {
    ls + block9_lines(block9_entries(ls), ls.len())
}

pub proof fn lemma_count_reg_bound(ls: Seq<Seq<char>>, r: Seq<char>)
    ensures
        count_reg(ls, r) <= ls.len(),
    decreases ls.len(),
{
    if ls.len() > 0 {
        lemma_count_reg_bound(ls.drop_last(), r);
    }
}

/// Two sorted entry lists with the same registers list them alike.
pub proof fn lemma_sorted_same_keys(a: Seq<RegCount>, b: Seq<RegCount>)
    requires
        keys_sorted(a),
        keys_sorted(b),
        forall|r: Seq<char>| #[trigger] has_key(a, r) <==> has_key(b, r),
    ensures
        a.len() == b.len(),
        forall|i: int| 0 <= i < a.len() ==> (#[trigger] a[i]).0 == b[i].0,
    decreases a.len(),
{
    if a.len() == 0 {
        if b.len() > 0 {
            assert(has_key(b, b[0].0));
            assert(has_key(a, b[0].0));
        }
    } else {
        assert(has_key(a, a[0].0));
        assert(has_key(b, a[0].0));
        let j = choose|j: int| 0 <= j < b.len() && (#[trigger] b[j]).0 == a[0].0;
        if j > 0 {
            assert(has_key(b, b[0].0));
            assert(has_key(a, b[0].0));
            let i = choose|i: int| 0 <= i < a.len() && (#[trigger] a[i]).0 == b[0].0;
            assert(text_lt(b[0].0, b[j].0));
            if i == 0 {
                lemma_text_lt_irreflexive(a[0].0);
            } else {
                assert(text_lt(a[0].0, a[i].0));
                lemma_text_lt_asymmetric(a[0].0, a[i].0);
            }
        }
        let a1 = a.drop_first();
        let b1 = b.drop_first();
        assert forall|r: Seq<char>| #[trigger] has_key(a1, r) <==> has_key(b1, r) by {
            if has_key(a1, r) {
                let k = choose|k: int| 0 <= k < a1.len() && (#[trigger] a1[k]).0 == r;
                assert(a[k + 1] == a1[k]);
                assert(has_key(a, r));
                assert(has_key(b, r));
                let m = choose|m: int| 0 <= m < b.len() && (#[trigger] b[m]).0 == r;
                assert(text_lt(a[0].0, a[k + 1].0));
                if m == 0 {
                    lemma_text_lt_irreflexive(r);
                }
                assert(b1[m - 1] == b[m]);
            }
            if has_key(b1, r) {
                let k = choose|k: int| 0 <= k < b1.len() && (#[trigger] b1[k]).0 == r;
                assert(b[k + 1] == b1[k]);
                assert(has_key(b, r));
                assert(has_key(a, r));
                let m = choose|m: int| 0 <= m < a.len() && (#[trigger] a[m]).0 == r;
                assert(text_lt(b[0].0, b[k + 1].0));
                if m == 0 {
                    lemma_text_lt_irreflexive(r);
                }
                assert(a1[m - 1] == a[m]);
            }
        }
        assert forall|i: int, j2: int| 0 <= i < j2 < a1.len() implies text_lt(
            #[trigger] a1[i].0,
            #[trigger] a1[j2].0,
        ) by {
            assert(a1[i] == a[i + 1] && a1[j2] == a[j2 + 1]);
        }
        assert forall|i: int, j2: int| 0 <= i < j2 < b1.len() implies text_lt(
            #[trigger] b1[i].0,
            #[trigger] b1[j2].0,
        ) by {
            assert(b1[i] == b[i + 1] && b1[j2] == b[j2 + 1]);
        }
        lemma_sorted_same_keys(a1, b1);
        assert forall|i: int| 0 <= i < a.len() implies (#[trigger] a[i]).0 == b[i].0 by {
            if i > 0 {
                assert(a[i] == a1[i - 1] && b[i] == b1[i - 1]);
            }
        }
    }
}

/// The 9900 entries of block 9 are determined by the lines.
pub proof fn lemma_block9_entries_unique(a: Seq<RegCount>, b: Seq<RegCount>, ls: Seq<Seq<char>>)
    requires
        block9_entries_ok(a, ls),
        block9_entries_ok(b, ls),
    ensures
        a == b,
{
    lemma_sorted_same_keys(a, b);
    assert forall|i: int| 0 <= i < a.len() implies a[i] == b[i] by {
        assert(a[i].1 == block9_count(ls, a.len(), a[i].0));
        assert(b[i].1 == block9_count(ls, b.len(), b[i].0));
    }
    assert(a =~= b);
}

pub open spec fn entries_view(es: Seq<(Vec<char>, u128)>) -> Seq<RegCount> {
    es.map_values(|e: (Vec<char>, u128)| (e.0@, e.1 as nat))
}

/// What adding `key` to the sorted entries `ov` gives in `nv`: `nv` is
/// sorted, lists the registers of `ov` and `key`, keeps the entries of
/// other registers, and gives `key` the count `value`, or (when `bump`) one
/// more than it had (one when it was new).
pub open spec fn put_ok(ov: Seq<RegCount>, nv: Seq<RegCount>, key: Seq<char>, bump: bool, value: nat) -> bool {
    &&& keys_sorted(nv)
    &&& nv.len() == ov.len() + if has_key(ov, key) {
        0nat
    } else {
        1nat
    }
    &&& forall|x: Seq<char>| #[trigger] has_key(nv, x) <==> (has_key(ov, x) || x == key)
    &&& forall|i: int| 0 <= i < nv.len() && (#[trigger] nv[i]).0 != key ==> has_entry(ov, nv[i])
    &&& forall|i: int, j: int|
        0 <= i < nv.len() && 0 <= j < ov.len() && (#[trigger] nv[i]).0 == key && (#[trigger] ov[j]).0
            == key ==> nv[i].1 == if bump {
            ov[j].1 + 1
        } else {
            value
        }
    &&& forall|i: int|
        0 <= i < nv.len() && (#[trigger] nv[i]).0 == key && !has_key(ov, key) ==> nv[i].1 == if bump {
            1
        } else {
            value
        }
}

/// Adds `key` to sorted entries or changes its count: the count goes up by
/// one when `bump`, else it becomes `value`.
fn put_entry(es: &mut Vec<(Vec<char>, u128)>, key: Vec<char>, bump: bool, value: u128)
    requires
        keys_sorted(entries_view(old(es)@)),
        bump ==> forall|i: int| 0 <= i < old(es)@.len() ==> (#[trigger] old(es)@[i]).1 < u128::MAX,
    ensures
        put_ok(entries_view(old(es)@), entries_view(final(es)@), key@, bump, value as nat),
{
    let ghost ov = entries_view(es@);
    let mut p: usize = 0;
    while p < es.len() && text_lt_chars(&es[p].0, &key)
        invariant
            ov == entries_view(es@),
            p <= es@.len(),
            forall|j: int| 0 <= j < p ==> text_lt(#[trigger] ov[j].0, key@),
        decreases es@.len() - p,
    {
        p = p + 1;
    }
    let found = p < es.len() && chars_eq(&es[p].0, &key);
    proof {
        if !found {
            assert forall|j: int| 0 <= j < ov.len() implies (#[trigger] ov[j]).0 != key@ by {
                if ov[j].0 == key@ {
                    if j < p {
                        lemma_text_lt_irreflexive(key@);
                    } else {
                        lemma_text_lt_total(ov[p as int].0, key@);
                        if j > p {
                            assert(text_lt(ov[p as int].0, ov[j].0));
                        }
                    }
                }
            }
        }
    }
    if found {
        let old_count = es[p].1;
        let n = if bump {
            old_count + 1
        } else {
            value
        };
        es.set(p, (key, n));
        proof {
            let nv = entries_view(es@);
            assert(nv =~= ov.update(p as int, (key@, n as nat)));
            assert forall|i: int, j: int| 0 <= i < j < nv.len() implies text_lt(
                #[trigger] nv[i].0,
                #[trigger] nv[j].0,
            ) by {
                assert(nv[i].0 == ov[i].0 && nv[j].0 == ov[j].0);
            }
            assert forall|x: Seq<char>| #[trigger] has_key(nv, x) <==> (has_key(ov, x) || x == key@) by {
                if has_key(ov, x) {
                    let k = choose|k: int| 0 <= k < ov.len() && (#[trigger] ov[k]).0 == x;
                    assert(nv[k].0 == x);
                }
                if x == key@ {
                    assert(nv[p as int].0 == x);
                }
                if has_key(nv, x) {
                    let k = choose|k: int| 0 <= k < nv.len() && (#[trigger] nv[k]).0 == x;
                    assert(ov[k].0 == x);
                }
            }
            assert forall|i: int| 0 <= i < nv.len() && (#[trigger] nv[i]).0 != key@ implies has_entry(
                ov,
                nv[i],
            ) by {
                assert(ov[i] == nv[i]);
            }
            assert forall|i: int, j: int|
                0 <= i < nv.len() && 0 <= j < ov.len() && (#[trigger] nv[i]).0 == key@ && (
                #[trigger] ov[j]).0 == key@ implies nv[i].1 == if bump {
                ov[j].1 + 1
            } else {
                value as nat
            } by {
                if i != p {
                    assert(nv[i] == ov[i]);
                    if i < p {
                        assert(text_lt(ov[i].0, ov[p as int].0));
                    } else {
                        assert(text_lt(ov[p as int].0, ov[i].0));
                    }
                    lemma_text_lt_irreflexive(key@);
                }
                if j != p {
                    if j < p {
                        assert(text_lt(ov[j].0, ov[p as int].0));
                    } else {
                        assert(text_lt(ov[p as int].0, ov[j].0));
                    }
                    lemma_text_lt_irreflexive(key@);
                }
            }
            assert(has_key(ov, key@)) by {
                assert(ov[p as int].0 == key@);
            }
            assert(nv.len() == ov.len());
        }
    } else {
        let n = if bump {
            1
        } else {
            value
        };
        let ghost kv = key@;
        es.insert(p, (key, n));
        proof {
            let nv = entries_view(es@);
            assert(nv =~= ov.take(p as int) + seq![(kv, n as nat)] + ov.skip(p as int));
            assert forall|i: int| 0 <= i < nv.len() implies (#[trigger] nv[i]) == if i < p {
                ov[i]
            } else if i == p {
                (kv, n as nat)
            } else {
                ov[i - 1]
            } by {}
            if p < ov.len() {
                lemma_text_lt_total(ov[p as int].0, kv);
            }
            assert forall|i: int, j: int| 0 <= i < j < nv.len() implies text_lt(
                #[trigger] nv[i].0,
                #[trigger] nv[j].0,
            ) by {
                if j < p {
                } else if j == p {
                } else if i < p {
                    lemma_text_lt_transitive(ov[i].0, kv, ov[j - 1].0);
                    if j - 1 > p {
                        lemma_text_lt_transitive(kv, ov[p as int].0, ov[j - 1].0);
                        lemma_text_lt_transitive(ov[i].0, kv, ov[j - 1].0);
                    }
                } else if i == p {
                    if j - 1 > p {
                        lemma_text_lt_transitive(kv, ov[p as int].0, ov[j - 1].0);
                    }
                } else {
                }
            }
            assert forall|x: Seq<char>| #[trigger] has_key(nv, x) <==> (has_key(ov, x) || x == kv) by {
                if has_key(ov, x) {
                    let k = choose|k: int| 0 <= k < ov.len() && (#[trigger] ov[k]).0 == x;
                    if k < p {
                        assert(nv[k].0 == x);
                    } else {
                        assert(nv[k + 1].0 == x);
                    }
                }
                if x == kv {
                    assert(nv[p as int].0 == x);
                }
                if has_key(nv, x) {
                    let k = choose|k: int| 0 <= k < nv.len() && (#[trigger] nv[k]).0 == x;
                    if k < p {
                        assert(ov[k].0 == x);
                    } else if k > p {
                        assert(ov[k - 1].0 == x);
                    }
                }
            }
            assert forall|i: int| 0 <= i < nv.len() && (#[trigger] nv[i]).0 != kv implies has_entry(
                ov,
                nv[i],
            ) by {
                if i < p {
                    assert(ov[i] == nv[i]);
                } else if i > p {
                    assert(ov[i - 1] == nv[i]);
                }
            }
            assert(!has_key(ov, kv));
            assert forall|i: int|
                0 <= i < nv.len() && (#[trigger] nv[i]).0 == kv && !has_key(ov, kv) implies nv[i].1
                == if bump {
                1
            } else {
                value as nat
            } by {
                if i < p {
                    assert(ov[i].0 == kv);
                } else if i > p {
                    assert(ov[i - 1].0 == kv);
                }
            }
        }
    }
}

pub fn rebuild_block9(lines: &Vec<String>) -> (r: Vec<String>)
    ensures
        texts(r@) == rebuild_block9_spec(texts(lines@)),
        no_block9_regs(texts(lines@)) ==> block9_counts_its_file(block9_entries(texts(lines@)), texts(r@)),
{
    let ghost ls = texts(lines@);
    let mut es: Vec<(Vec<char>, u128)> = Vec::new();
    for i in 0..lines.len()
        invariant
            ls == texts(lines@),
            keys_sorted(entries_view(es@)),
            forall|x: Seq<char>| #[trigger] has_key(entries_view(es@), x) <==> counted(ls.take(i as int), x),
            forall|k: int|
                0 <= k < es@.len() ==> (#[trigger] entries_view(es@)[k]).1 == count_reg(
                    ls.take(i as int),
                    entries_view(es@)[k].0,
                ),
            forall|k: int| 0 <= k < es@.len() ==> (#[trigger] es@[k]).1 <= i,
    {
        let ghost ev = entries_view(es@);
        let ghost pre = ls.take(i as int);
        let ghost post = ls.take(i + 1);
        proof {
            assert(post.drop_last() =~= pre);
            assert(post.last() == lines@[i as int]@);
            assert forall|k: int| 0 <= k < es@.len() implies (#[trigger] es@[k]).1 < u128::MAX by {
                assert(es@[k].1 <= i);
            }
        }
        let t = trim_chars(&chars_of_string(&lines[i]));
        if t.len() > 0 && t[0] == '|' {
            let inner = trim_matches_chars(&t, '|');
            let parts = split_chars(&inner, '|');
            proof {
                crate::text::lemma_split_on_nonempty(inner@, '|');
                assert(t@.take(1) =~= seq!['|']);
            }
            let reg = copy_chars_of(&parts[0]);
            let ghost rv = reg@;
            proof {
                assert(line_reg(lines@[i as int]@) == rv);
            }
            if reg.len() > 0 {
                put_entry(&mut es, reg, true, 0);
                proof {
                    let nv = entries_view(es@);
                    assert forall|x: Seq<char>| #[trigger] has_key(nv, x) <==> counted(post, x) by {
                        if x == rv {
                            assert(count_reg(post, x) == count_reg(pre, x) + 1);
                        } else {
                            assert(count_reg(post, x) == count_reg(pre, x));
                        }
                    }
                    assert forall|k: int| 0 <= k < es@.len() implies (#[trigger] nv[k]).1
                        == count_reg(post, nv[k].0) by {
                        if nv[k].0 != rv {
                            assert(has_entry(ev, nv[k]));
                            let j = choose|j: int| 0 <= j < ev.len() && #[trigger] ev[j] == nv[k];
                            assert(count_reg(post, nv[k].0) == count_reg(pre, nv[k].0));
                        } else if has_key(ev, rv) {
                            let j = choose|j: int| 0 <= j < ev.len() && (#[trigger] ev[j]).0 == rv;
                            assert(nv[k].1 == ev[j].1 + 1);
                        } else {
                            assert(!counted(pre, rv));
                        }
                    }
                    assert forall|k: int| 0 <= k < es@.len() implies (#[trigger] es@[k]).1 <= i + 1 by {
                        assert(nv[k].1 == es@[k].1);
                        lemma_count_reg_bound(post, nv[k].0);
                    }
                }
            } else {
                proof {
                    assert forall|x: Seq<char>| #[trigger] has_key(ev, x) <==> counted(post, x) by {
                        if x.len() > 0 {
                            assert(count_reg(post, x) == count_reg(pre, x));
                        }
                    }
                    assert forall|k: int| 0 <= k < es@.len() implies (#[trigger] ev[k]).1
                        == count_reg(post, ev[k].0) by {
                        assert(has_key(ev, ev[k].0));
                    }
                }
            }
        } else {
            proof {
                assert(line_reg(lines@[i as int]@) == Seq::<char>::empty()) by {
                    if starts_with(t@, seq!['|']) {
                        assert(t@.take(1)[0] == t@[0]);
                    }
                }
                assert forall|x: Seq<char>| #[trigger] has_key(ev, x) <==> counted(post, x) by {
                    if x.len() > 0 {
                        assert(count_reg(post, x) == count_reg(pre, x));
                    }
                }
                assert forall|k: int| 0 <= k < es@.len() implies (#[trigger] ev[k]).1 == count_reg(
                    post,
                    ev[k].0,
                ) by {
                    assert(has_key(ev, ev[k].0));
                }
            }
        }
    }
    proof {
        assert(ls.take(lines@.len() as int) =~= ls);
    }
    let ghost e0 = entries_view(es@);
    proof {
        assert(partial_ok(e0, ls, Set::empty()));
    }
    put_entry(&mut es, chars_of("9001"), false, 1);
    let ghost e1 = entries_view(es@);
    proof {
        lemma_fixed_step(ls, e0, e1, "9001"@, Set::empty());
    }
    put_entry(&mut es, chars_of("9990"), false, 1);
    let ghost e2 = entries_view(es@);
    proof {
        lemma_fixed_step(ls, e1, e2, "9990"@, Set::empty().insert("9001"@));
    }
    put_entry(&mut es, chars_of("9999"), false, 1);
    let ghost e3 = entries_view(es@);
    proof {
        lemma_fixed_step(ls, e2, e3, "9999"@, Set::empty().insert("9001"@).insert("9990"@));
    }
    let reg_count = (es.len() as u128) + 1;
    put_entry(&mut es, chars_of("9900"), false, reg_count);
    let ghost fv = entries_view(es@);
    proof {
        lemma_last_step(ls, e3, fv);
    }
    let mut out: Vec<String> = Vec::new();
    copy_range(lines, 0, lines.len(), &mut out);
    proof {
        assert(ls.subrange(0, lines@.len() as int) =~= ls);
        assert(Seq::<Seq<char>>::empty() + ls =~= ls);
    }
    out.push(string_of(&chars_of("|9001|0|")));
    for k in 0..es.len()
        invariant
            fv == entries_view(es@),
            texts(out@) == ls + seq!["|9001|0|"@] + fv.take(k as int).map_values(
                |e: RegCount| entry_line(e),
            ),
    {
        let mut v = chars_of("|9900|");
        append_chars(&mut v, &es[k].0);
        append_str(&mut v, "|");
        append_chars(&mut v, &decimal_chars(es[k].1));
        append_str(&mut v, "|");
        let ghost before = texts(out@);
        out.push(string_of(&v));
        proof {
            assert(v@ == entry_line(fv[k as int]));
            assert(fv.take(k + 1).map_values(|e: RegCount| entry_line(e)) =~= fv.take(
                k as int,
            ).map_values(|e: RegCount| entry_line(e)).push(entry_line(fv[k as int])));
            assert(texts(out@) =~= before.push(v@));
        }
    }
    let n9 = es.len();
    let mut l9990 = chars_of("|9990|");
    append_chars(&mut l9990, &decimal_chars((n9 as u128) + 3));
    append_str(&mut l9990, "|");
    let ghost with_entries = texts(out@);
    out.push(string_of(&l9990));
    let total = (lines.len() as u128) + (n9 as u128) + 3;
    let mut l9999 = chars_of("|9999|");
    append_chars(&mut l9999, &decimal_chars(total));
    append_str(&mut l9999, "|");
    out.push(string_of(&l9999));
    proof {
        assert(texts(out@) =~= with_entries.push(l9990@).push(l9999@));
        assert(l9990@ == "|9990|"@ + decimal(fv.len() + 3) + "|"@);
        assert(l9999@ == "|9999|"@ + decimal(ls.len() + fv.len() + 3) + "|"@);
        assert(fv.take(fv.len() as int) =~= fv);
        assert(texts(out@) =~= ls + block9_lines(fv, ls.len()));
        lemma_block9_entries_unique(block9_entries(ls), fv, ls);
        if no_block9_regs(ls) {
            lemma_block9_counts_file(ls, fv);
        }
    }
    out
}

/// The count of `r` once the registers in `fixed` were set to one.
pub open spec fn fixed_count(ls: Seq<Seq<char>>, fixed: Set<Seq<char>>, r: Seq<char>) -> nat {
    if fixed.contains(r) {
        1
    } else {
        count_reg(ls, r)
    }
}

/// The entries list the used registers and those in `fixed`, with their
/// counts.
pub open spec fn partial_ok(es: Seq<RegCount>, ls: Seq<Seq<char>>, fixed: Set<Seq<char>>) -> bool {
    &&& keys_sorted(es)
    &&& forall|x: Seq<char>| #[trigger] has_key(es, x) <==> (counted(ls, x) || fixed.contains(x))
    &&& forall|k: int| 0 <= k < es.len() ==> (#[trigger] es[k]).1 == fixed_count(ls, fixed, es[k].0)
}

proof fn lemma_fixed_step(
    ls: Seq<Seq<char>>,
    a: Seq<RegCount>,
    b: Seq<RegCount>,
    key: Seq<char>,
    fixed: Set<Seq<char>>,
)
    requires
        partial_ok(a, ls, fixed),
        put_ok(a, b, key, false, 1),
    ensures
        partial_ok(b, ls, fixed.insert(key)),
{
    let f2 = fixed.insert(key);
    assert forall|k: int| 0 <= k < b.len() implies (#[trigger] b[k]).1 == fixed_count(ls, f2, b[k].0) by {
        if b[k].0 != key {
            let j = choose|j: int| 0 <= j < a.len() && #[trigger] a[j] == b[k];
            assert(a[j].1 == fixed_count(ls, fixed, a[j].0));
        } else if has_key(a, key) {
            let j = choose|j: int| 0 <= j < a.len() && (#[trigger] a[j]).0 == key;
            assert(b[k].1 == 1);
        }
    }
}

pub open spec fn fixed_block9_regs() -> Set<Seq<char>> {
    Set::empty().insert("9001"@).insert("9990"@).insert("9999"@)
}

proof fn lemma_last_step(ls: Seq<Seq<char>>, a: Seq<RegCount>, b: Seq<RegCount>)
    requires
        partial_ok(a, ls, fixed_block9_regs()),
        put_ok(a, b, "9900"@, false, a.len() + 1),
    ensures
        block9_entries_ok(b, ls),
{
    let fixed = fixed_block9_regs();
    reveal_strlit("9900");
    reveal_strlit("9001");
    reveal_strlit("9990");
    reveal_strlit("9999");
    assert("9900"@[1] != "9001"@[1]);
    assert("9900"@[1] != "9990"@[1] || "9900"@[2] != "9990"@[2]);
    assert("9900"@[2] != "9999"@[2]);
    assert(!fixed.contains("9900"@));
    assert(has_key(a, "9900"@) <==> counted(ls, "9900"@));
    assert forall|x: Seq<char>| fixed.contains(x) <==> is_fixed_block9_reg(x) by {}
    assert forall|k: int| 0 <= k < b.len() implies (#[trigger] b[k]).1 == block9_count(ls, b.len(), b[k].0) by {
        if b[k].0 != "9900"@ {
            let j = choose|j: int| 0 <= j < a.len() && #[trigger] a[j] == b[k];
            assert(a[j].1 == fixed_count(ls, fixed, a[j].0));
            assert(b[k].0 != "9900"@);
        } else if has_key(a, "9900"@) {
            let j = choose|j: int| 0 <= j < a.len() && (#[trigger] a[j]).0 == "9900"@;
            assert(b[k].1 == a.len() + 1);
        }
    }
}

/// A rebuilt block 9 counts itself and the file: it opens with `|9001|0|`
/// right after the lines, its `|9990|` line holds the number of lines of
/// block 9, and its closing `|9999|` line the number of lines of the file.
pub proof fn lemma_block9_counts(ls: Seq<Seq<char>>)
    ensures
        ({
            let out = rebuild_block9_spec(ls);
            &&& out.len() >= ls.len() + 3
            &&& out.take(ls.len() as int) == ls
            &&& out[ls.len() as int] == "|9001|0|"@
            &&& out[out.len() - 2] == "|9990|"@ + decimal((out.len() - ls.len()) as nat) + "|"@
            &&& out[out.len() - 1] == "|9999|"@ + decimal(out.len()) + "|"@
        }),
{
    let es = block9_entries(ls);
    let out = rebuild_block9_spec(ls);
    let b = block9_lines(es, ls.len());
    assert(b.len() == es.len() + 3);
    assert(out.take(ls.len() as int) =~= ls);
    assert(out[ls.len() as int] == b[0]);
    assert(out[out.len() - 2] == b[b.len() - 2]);
    assert(out[out.len() - 1] == b[b.len() - 1]);
}

proof fn lemma_trim_framed(s: Seq<char>)
    requires
        s.len() > 0,
        s[0] == '|',
        s.last() == '|',
    ensures
        trim(s) == s,
{
    assert(!crate::text::is_ws(s[0]));
    assert(!crate::text::is_ws(s.last()));
    assert(crate::text::trim_start(s) == s);
    assert(crate::text::trim_end(s) == s);
}

proof fn lemma_find_tag_at(ls: Seq<Seq<char>>, tag: Seq<char>, from: int, k: int)
    requires
        0 <= from <= k < ls.len(),
        has_tag(ls[k], tag),
        forall|j: int| from <= j < k ==> !has_tag(#[trigger] ls[j], tag),
    ensures
        find_tag(ls, tag, from) == Some(k),
    decreases k - from,
{
    if from < k {
        lemma_find_tag_at(ls, tag, from + 1, k);
    }
}

/// Removing a rebuilt block 9 gives back the lines it was built on, when
/// none of them opens a block 9 of its own.
pub proof fn law_strip_undoes_rebuild(ls: Seq<Seq<char>>)
    requires
        forall|j: int| 0 <= j < ls.len() ==> !has_tag(#[trigger] ls[j], "|9001|"@),
    ensures
        strip_block9_spec(rebuild_block9_spec(ls)) == ls,
{
    let es = block9_entries(ls);
    let n = ls.len() as int;
    let b = block9_lines(es, ls.len());
    let o = rebuild_block9_spec(ls);
    reveal_strlit("|9001|0|");
    reveal_strlit("|9001|");
    reveal_strlit("|9999|");
    reveal_strlit("|9900|");
    reveal_strlit("|9990|");
    reveal_strlit("|");
    assert(b.len() == es.len() + 3);
    assert(o.len() == n + b.len());
    assert forall|j: int| 0 <= j < n implies !has_tag(#[trigger] o[j], "|9001|"@) by {
        assert(o[j] == ls[j]);
    }
    assert(o[n] == "|9001|0|"@);
    lemma_trim_framed(o[n]);
    assert(o[n].take(6) =~= "|9001|"@);
    lemma_find_tag_at(o, "|9001|"@, 0, n);
    let last = o.len() - 1;
    assert forall|j: int| n <= j < last implies !has_tag(#[trigger] o[j], "|9999|"@) by {
        let line = o[j];
        if j == n {
            assert(trim(line) == line);
            assert(line[3] != "|9999|"@[3]);
        } else if j < last - 1 {
            let e = es[j - n - 1];
            assert(b[j - n] == entry_line(e));
            assert(line == entry_line(e));
            assert(line[0] == '|');
            assert(line.last() == '|');
            lemma_trim_framed(line);
            assert(line[3] == '0');
        } else {
            assert(line == b[b.len() - 2]);
            assert(line == "|9990|"@ + decimal(es.len() + 3) + "|"@);
            assert(line[0] == '|');
            assert(line.last() == '|');
            lemma_trim_framed(line);
            assert(line[4] == '0');
        }
        if has_tag(line, "|9999|"@) {
            assert(trim(line).take(6)[3] == "|9999|"@[3]);
            assert(trim(line).take(6)[4] == "|9999|"@[4]);
        }
    }
    let l = o[last];
    assert(l == b[b.len() - 1]);
    assert(l == "|9999|"@ + decimal((ls.len() + es.len() + 3) as nat) + "|"@);
    assert(l[0] == '|');
    assert(l.last() == '|');
    lemma_trim_framed(l);
    assert(l.take(6) =~= "|9999|"@);
    lemma_find_tag_at(o, "|9999|"@, n, last);
    assert(o.take(n) =~= ls);
}

proof fn lemma_split_none(t: Seq<char>, sep: char)
    requires
        forall|j: int| 0 <= j < t.len() ==> t[j] != sep,
    ensures
        split_on(t, sep) == seq![t],
    decreases t.len(),
{
    if t.len() == 0 {
        assert(t =~= Seq::<char>::empty());
        assert(split_on(t, sep) =~= seq![t]);
    } else {
        lemma_split_none(t.drop_last(), sep);
        assert(t.last() != sep);
        assert(t.drop_last().push(t.last()) =~= t);
        assert(split_on(t, sep) =~= seq![t]);
    }
}

proof fn lemma_split_first(s: Seq<char>, sep: char, k: int)
    requires
        0 <= k < s.len(),
        s[k] == sep,
        forall|j: int| 0 <= j < k ==> s[j] != sep,
    ensures
        split_on(s, sep).len() >= 2,
        split_on(s, sep)[0] == s.take(k),
    decreases s.len(),
{
    let d = s.drop_last();
    if k == s.len() - 1 {
        assert(d =~= s.take(k));
        lemma_split_none(d, sep);
    } else {
        lemma_split_first(d, sep, k);
        assert(d.take(k) =~= s.take(k));
    }
}

proof fn lemma_strip_trailing_prefix(s: Seq<char>, c: char, k: int)
    requires
        0 <= k < s.len(),
        s[k] != c,
    ensures
        strip_trailing(s, c).len() > k,
        strip_trailing(s, c).len() <= s.len(),
        strip_trailing(s, c) == s.take(strip_trailing(s, c).len() as int),
    decreases s.len(),
{
    if s.last() == c {
        lemma_strip_trailing_prefix(s.drop_last(), c, k);
        let t = strip_trailing(s.drop_last(), c);
        assert(s.drop_last().take(t.len() as int) =~= s.take(t.len() as int));
    } else {
        assert(s.take(s.len() as int) =~= s);
    }
}

/// The register of a block 9 line `|CODE|...|` is its four-character code.
proof fn lemma_reg_of_framed(l: Seq<char>, code: Seq<char>)
    requires
        l.len() >= 6,
        l[0] == '|',
        l.last() == '|',
        l[5] == '|',
        code.len() == 4,
        forall|i: int| 0 <= i < 4 ==> l[i + 1] == code[i] && #[trigger] code[i] != '|',
    ensures
        line_reg(l) == code,
{
    lemma_trim_framed(l);
    assert(l.take(1) =~= seq!['|']);
    let s1 = l.drop_first();
    assert(s1[0] == code[0]);
    assert(strip_leading(s1, '|') == s1);
    assert(strip_leading(l, '|') == s1);
    assert(s1[3] == code[3]);
    lemma_strip_trailing_prefix(s1, '|', 3);
    let t = strip_trailing(s1, '|');
    assert(trim_matches(l, '|') == t);
    if t.len() == 4 {
        assert(t =~= code);
        assert forall|j: int| 0 <= j < t.len() implies t[j] != '|' by {
            assert(t[j] == code[j]);
        }
        lemma_split_none(t, '|');
    } else {
        assert(t[4] == s1[4]);
        assert forall|j: int| 0 <= j < 4 implies t[j] != '|' by {
            assert(t[j] == code[j]);
        }
        lemma_split_first(t, '|', 4);
        assert(t.take(4) =~= code);
    }
}

proof fn lemma_count_reg_concat(a: Seq<Seq<char>>, b: Seq<Seq<char>>, r: Seq<char>)
    ensures
        count_reg(a + b, r) == count_reg(a, r) + count_reg(b, r),
    decreases b.len(),
{
    if b.len() == 0 {
        assert(a + b =~= a);
    } else {
        lemma_count_reg_concat(a, b.drop_last(), r);
        assert((a + b).drop_last() =~= a + b.drop_last());
        assert((a + b).last() == b.last());
    }
}

proof fn lemma_count_reg_absent(ls: Seq<Seq<char>>, r: Seq<char>)
    requires
        forall|j: int| 0 <= j < ls.len() ==> line_reg(#[trigger] ls[j]) != r,
    ensures
        count_reg(ls, r) == 0,
    decreases ls.len(),
{
    if ls.len() > 0 {
        lemma_count_reg_absent(ls.drop_last(), r);
    }
}

proof fn lemma_count_entry_lines(es: Seq<RegCount>, r: Seq<char>)
    ensures
        count_reg(es.map_values(|e: RegCount| entry_line(e)), r) == if r == "9900"@ {
            es.len()
        } else {
            0
        },
    decreases es.len(),
{
    if es.len() > 0 {
        let m = es.map_values(|e: RegCount| entry_line(e));
        lemma_count_entry_lines(es.drop_last(), r);
        assert(m.drop_last() =~= es.drop_last().map_values(|e: RegCount| entry_line(e)));
        let l = entry_line(es.last());
        assert(m.last() == l);
        reveal_strlit("|9900|");
        reveal_strlit("9900");
        reveal_strlit("|");
        lemma_reg_of_framed(l, "9900"@);
    }
}

/// No line of `ls` has a register of block 9.
pub open spec fn no_block9_regs(ls: Seq<Seq<char>>) -> bool {
    forall|j: int|
        0 <= j < ls.len() ==> !is_fixed_block9_reg(line_reg(#[trigger] ls[j])) && line_reg(ls[j]) != "9900"@
}

/// Block 9 lists, in text order, every register of the whole file (block
/// 9 included), each once, with the number of lines of the file that
/// have it.
pub open spec fn block9_counts_its_file(es: Seq<RegCount>, o: Seq<Seq<char>>) -> bool {
    &&& keys_sorted(es)
    &&& forall|r: Seq<char>| #[trigger] has_key(es, r) <==> counted(o, r)
    &&& forall|k: int| 0 <= k < es.len() ==> (#[trigger] es[k]).1 == count_reg(o, es[k].0)
}

proof fn lemma_block9_counts_file(ls: Seq<Seq<char>>, es: Seq<RegCount>)
    requires
        block9_entries_ok(es, ls),
        no_block9_regs(ls),
    ensures
        block9_counts_its_file(es, ls + block9_lines(es, ls.len())),
{
    reveal_strlit("9001");
    reveal_strlit("9900");
    reveal_strlit("9990");
    reveal_strlit("9999");
    reveal_strlit("|9001|0|");
    reveal_strlit("|9990|");
    reveal_strlit("|9999|");
    reveal_strlit("|");
    let n = ls.len();
    let m = es.map_values(|e: RegCount| entry_line(e));
    let open = "|9001|0|"@;
    let l90 = "|9990|"@ + decimal(es.len() + 3) + "|"@;
    let l99 = "|9999|"@ + decimal(n + es.len() + 3) + "|"@;
    let b = block9_lines(es, n);
    let o = ls + b;
    assert(b =~= seq![open] + m + seq![l90, l99]);
    lemma_reg_of_framed(open, "9001"@);
    lemma_reg_of_framed(l90, "9990"@);
    lemma_reg_of_framed(l99, "9999"@);
    assert("9900"@[1] != "9001"@[1]);
    assert("9900"@[2] != "9990"@[2]);
    assert("9900"@[2] != "9999"@[2]);
    assert("9001"@[1] != "9990"@[1]);
    assert("9001"@[1] != "9999"@[1]);
    assert("9990"@[3] != "9999"@[3]);
    assert forall|r: Seq<char>| count_reg(o, r) == count_reg(ls, r) + (if r == "9001"@ {
        1int
    } else {
        0
    }) + (if r == "9900"@ {
        es.len() as int
    } else {
        0
    }) + (if r == "9990"@ {
        1int
    } else {
        0
    }) + (if r == "9999"@ {
        1int
    } else {
        0
    }) by {
        lemma_count_reg_concat(ls, b, r);
        lemma_count_reg_concat(seq![open] + m, seq![l90, l99], r);
        lemma_count_reg_concat(seq![open], m, r);
        lemma_count_entry_lines(es, r);
        assert(seq![l90, l99].drop_last() =~= seq![l90]);
        assert(seq![l90].drop_last() =~= Seq::<Seq<char>>::empty());
        assert(seq![open].drop_last() =~= Seq::<Seq<char>>::empty());
        assert(count_reg(Seq::<Seq<char>>::empty(), r) == 0);
        assert(count_reg(seq![open], r) == if r == "9001"@ { 1nat } else { 0nat });
        assert(count_reg(seq![l90], r) == if r == "9990"@ { 1nat } else { 0nat });
        assert(count_reg(seq![l90, l99], r) == count_reg(seq![l90], r) + if r == "9999"@ { 1nat } else { 0nat });
    }
    assert forall|r: Seq<char>| is_fixed_block9_reg(r) || r == "9900"@ implies count_reg(ls, r) == 0 by {
        lemma_count_reg_absent(ls, r);
    }
    assert forall|r: Seq<char>| #[trigger] has_key(es, r) <==> counted(o, r) by {
        if is_fixed_block9_reg(r) || r == "9900"@ {
            assert(has_key(es, r));
            if r == "9900"@ {
                let i = choose|i: int| 0 <= i < es.len() && (#[trigger] es[i]).0 == r;
            }
        }
    }
    assert forall|k: int| 0 <= k < es.len() implies (#[trigger] es[k]).1 == count_reg(o, es[k].0) by {
        let r = es[k].0;
        assert(es[k].1 == block9_count(ls, es.len(), r));
        if r == "9900"@ {
            assert(!counted(ls, "9900"@));
        }
    }
}

fn copy_chars_of(v: &Vec<char>) -> (r: Vec<char>)
    ensures
        r@ == v@,
{
    crate::text::copy_chars(v)
}

// ---------------------------------------------------------------------------
// C100 groups
// ---------------------------------------------------------------------------

/// The indices of the lines that start with `tag`, in increasing order.
pub open spec fn tag_indices(ls: Seq<Seq<char>>, tag: Seq<char>) -> Seq<int>
    decreases ls.len(),
{
    if ls.len() == 0 {
        seq![]
    } else if has_tag(ls.last(), tag) {
        tag_indices(ls.drop_last(), tag).push(ls.len() - 1)
    } else {
        tag_indices(ls.drop_last(), tag)
    }
}

pub proof fn lemma_tag_indices(ls: Seq<Seq<char>>, tag: Seq<char>)
    ensures
        forall|p: int| 0 <= p < tag_indices(ls, tag).len() ==> 0 <= #[trigger] tag_indices(ls, tag)[p]
            < ls.len(),
        forall|p: int, q: int|
            0 <= p < q < tag_indices(ls, tag).len() ==> #[trigger] tag_indices(ls, tag)[p]
                < #[trigger] tag_indices(ls, tag)[q],
    decreases ls.len(),
{
    if ls.len() > 0 {
        lemma_tag_indices(ls.drop_last(), tag);
        let prev = tag_indices(ls.drop_last(), tag);
        let cur = tag_indices(ls, tag);
        if has_tag(ls.last(), tag) {
            assert(cur == prev.push(ls.len() - 1));
            assert forall|p: int, q: int| 0 <= p < q < cur.len() implies #[trigger] cur[p]
                < #[trigger] cur[q] by {
                assert(cur[p] == prev[p]);
                if q < prev.len() {
                    assert(cur[q] == prev[q]);
                }
            }
            assert forall|p: int| 0 <= p < cur.len() implies 0 <= #[trigger] cur[p] < ls.len() by {
                if p < prev.len() {
                    assert(cur[p] == prev[p]);
                }
            }
        }
    }
}

pub type Lines = Seq<Seq<char>>;

/// A SPED text cut around its C100 groups: the lines before the first
/// `|C100|` line; each group, from a `|C100|` line to the next one (the
/// last group ends at the first `|C990|` line after it, or at the end);
/// and the lines from that `|C990|` line on.  With no C100 line, the
/// whole text is the prefix.
pub open spec fn split_by_c100_spec(ls: Lines) -> (Lines, Seq<Lines>, Lines) {
    let ix = tag_indices(ls, "|C100|"@);
    if ix.len() == 0 {
        (ls, seq![], seq![])
    } else {
        let ss = match find_tag(ls, "|C990|"@, ix.last() + 1) {
            Some(k) => k,
            None => ls.len() as int,
        };
        (
            ls.take(ix[0]),
            Seq::new(
                ix.len(),
                |p: int|
                    ls.subrange(
                        ix[p],
                        if p + 1 < ix.len() {
                            ix[p + 1]
                        } else {
                            ss
                        },
                    ),
            ),
            if ss < ls.len() {
                ls.skip(ss)
            } else {
                seq![]
            },
        )
    }
}

pub open spec fn groups_view(gs: Seq<Vec<String>>) -> Seq<Lines> {
    gs.map_values(|g: Vec<String>| texts(g@))
}

pub fn split_sped_by_c100(lines: &Vec<String>) -> (r: (Vec<String>, Vec<Vec<String>>, Vec<String>))
    ensures
        (texts(r.0@), groups_view(r.1@), texts(r.2@)) == split_by_c100_spec(texts(lines@)),
{
    let ghost ls = texts(lines@);
    let mut idx: Vec<usize> = Vec::new();
    for i in 0..lines.len()
        invariant
            ls == texts(lines@),
            idx@.map_values(|u: usize| u as int) == tag_indices(ls.take(i as int), "|C100|"@),
    {
        proof {
            assert(ls.take(i + 1).drop_last() =~= ls.take(i as int));
            assert(ls.take(i + 1).last() == lines@[i as int]@);
        }
        if line_has_tag(&lines[i], "|C100|") {
            let ghost before = idx@.map_values(|u: usize| u as int);
            idx.push(i);
            proof {
                assert(idx@.map_values(|u: usize| u as int) =~= before.push(i as int));
            }
        }
    }
    let ghost ix = tag_indices(ls, "|C100|"@);
    proof {
        assert(ls.take(lines@.len() as int) =~= ls);
        lemma_tag_indices(ls, "|C100|"@);
        assert(forall|p: int| 0 <= p < idx@.len() ==> ix[p] == #[trigger] idx@[p] as int);
    }
    let mut prefix: Vec<String> = Vec::new();
    let mut groups: Vec<Vec<String>> = Vec::new();
    let mut suffix: Vec<String> = Vec::new();
    if idx.len() == 0 {
        copy_range(lines, 0, lines.len(), &mut prefix);
        proof {
            assert(ls.subrange(0, lines@.len() as int) =~= ls);
            assert(Seq::<Seq<char>>::empty() + ls =~= ls);
            assert(groups_view(groups@) =~= Seq::<Lines>::empty());
        }
        return (prefix, groups, suffix);
    }
    let last = idx[idx.len() - 1];
    proof {
        lemma_find_tag(ls, "|C990|"@, last + 1);
    }
    let suffix_start = match find_tag_from(lines, "|C990|", last + 1) {
        Some(k) => k,
        None => lines.len(),
    };
    copy_range(lines, 0, idx[0], &mut prefix);
    proof {
        assert(Seq::<Seq<char>>::empty() + ls.subrange(0, idx@[0] as int) =~= ls.take(
            idx@[0] as int,
        ));
    }
    let ghost expected = split_by_c100_spec(ls).1;
    proof {
        assert(expected.len() == ix.len());
        assert forall|p: int| 0 <= p < ix.len() implies #[trigger] expected[p] == ls.subrange(
            ix[p],
            if p + 1 < ix.len() {
                ix[p + 1]
            } else {
                suffix_start as int
            },
        ) by {}
    }
    let mut pos: usize = 0;
    while pos < idx.len()
        invariant
            ls == texts(lines@),
            idx@.len() == ix.len(),
            ix.len() > 0,
            forall|p: int| 0 <= p < idx@.len() ==> ix[p] == #[trigger] idx@[p] as int,
            forall|p: int| 0 <= p < ix.len() ==> 0 <= #[trigger] ix[p] < ls.len(),
            forall|p: int, q: int| 0 <= p < q < ix.len() ==> #[trigger] ix[p] < #[trigger] ix[q],
            last as int == ix.last(),
            last < suffix_start <= lines@.len(),
            expected.len() == ix.len(),
            forall|p: int| 0 <= p < ix.len() ==> #[trigger] expected[p] == ls.subrange(
                ix[p],
                if p + 1 < ix.len() {
                    ix[p + 1]
                } else {
                    suffix_start as int
                },
            ),
            suffix_start as int == (match find_tag(ls, "|C990|"@, ix.last() + 1) {
                Some(k) => k,
                None => ls.len() as int,
            }),
            pos <= idx@.len(),
            groups_view(groups@) == expected.take(pos as int),
        decreases idx@.len() - pos,
    {
        let start = idx[pos];
        let end = if pos + 1 < idx.len() {
            idx[pos + 1]
        } else {
            suffix_start
        };
        proof {
            if pos + 1 < idx.len() {
                assert(ix[pos as int] < ix[pos + 1]);
            } else {
                assert(ix[pos as int] == ix.last());
            }
        }
        let mut g: Vec<String> = Vec::new();
        copy_range(lines, start, end, &mut g);
        let ghost before = groups_view(groups@);
        groups.push(g);
        proof {
            assert(Seq::<Seq<char>>::empty() + ls.subrange(start as int, end as int) =~= ls.subrange(
                start as int,
                end as int,
            ));
            assert(expected[pos as int] == ls.subrange(start as int, end as int));
            assert(groups_view(groups@) =~= before.push(expected[pos as int]));
            assert(expected.take(pos + 1) =~= expected.take(pos as int).push(expected[pos as int]));
        }
        pos = pos + 1;
    }
    proof {
        assert(expected.take(idx@.len() as int) =~= expected);
    }
    if suffix_start < lines.len() {
        copy_range(lines, suffix_start, lines.len(), &mut suffix);
        proof {
            assert(Seq::<Seq<char>>::empty() + ls.subrange(suffix_start as int, ls.len() as int)
                =~= ls.skip(suffix_start as int));
        }
    } else {
        proof {
            assert(texts(suffix@) =~= Seq::<Seq<char>>::empty());
        }
    }
    (prefix, groups, suffix)
}

} // verus!
