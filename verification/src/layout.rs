//! Fixed-width record building: fields are fitted to their size and
//! written at 1-based positions of a line prefilled with spaces.
use vstd::prelude::*;

use crate::text::{chars_of, concat_chars, copy_chars, take_chars, take_chars_vec, utf8_len, utf8_len_upto};

verus! {

/// `value` cut to `size` characters and padded with `pad` on the left
/// (`right`) or on the right.  "Fits"
/// and the amount of padding are measured in UTF-8 bytes.
pub open spec fn fit(value: Seq<char>, size: int, right: bool, pad: char) -> Seq<char> {
    let cleaned = take_chars(value, size);
    let bytes = utf8_len(cleaned) as int;
    if bytes == size {
        cleaned
    } else {
        let fill = Seq::new(
            if size > bytes {
                (size - bytes) as nat
            } else {
                0
            },
            |i: int| pad,
        );
        if right {
            fill + cleaned
        } else {
            cleaned + fill
        }
    }
}

pub open spec fn min_int(a: int, b: int) -> int {
    if a < b {
        a
    } else {
        b
    }
}

/// First index written by a field at a 1-based position.
pub open spec fn field_start(position: int) -> int {
    if position >= 1 {
        position - 1
    } else {
        0
    }
}

/// Writes the fitted value at `position` (1-based), at most `size`
/// characters, ignoring what falls past the end of the buffer.
pub open spec fn put(
    buf: Seq<char>,
    position: int,
    size: int,
    value: Seq<char>,
    right: bool,
    pad: char,
) -> Seq<char> {
    let start = field_start(position);
    let fitted = fit(value, size, right, pad);
    let n = min_int(size, fitted.len() as int);
    Seq::new(
        buf.len(),
        |k: int|
            if start <= k && k < start + n {
                fitted[k - start]
            } else {
                buf[k]
            },
    )
}

/// A field of a record: 1-based position, size, value, alignment, padding.
pub type FieldModel = (int, int, Seq<char>, bool, char);

/// The fields written one after the other over `buf`.
pub open spec fn apply_fields(buf: Seq<char>, fields: Seq<FieldModel>) -> Seq<char>
    decreases fields.len(),
{
    if fields.len() == 0 {
        buf
    } else {
        let f = fields.last();
        put(apply_fields(buf, fields.drop_last()), f.0, f.1, f.2, f.3, f.4)
    }
}

pub open spec fn blank_line(len: nat) -> Seq<char> {
    Seq::new(len, |i: int| ' ')
}

/// A field of a record, as the executable code holds it.
pub struct Field {
    pub position: usize,
    pub size: usize,
    pub value: Vec<char>,
    pub right: bool,
    pub pad: char,
}

pub open spec fn field_model(f: Field) -> FieldModel {
    (f.position as int, f.size as int, f.value@, f.right, f.pad)
}

pub open spec fn fields_model(fs: Seq<Field>) -> Seq<FieldModel> {
    fs.map_values(|f: Field| field_model(f))
}

/// Builds a field from a text.
pub fn field(position: usize, size: usize, value: &Vec<char>, right: bool, pad: char) -> (r:
    Field)
    ensures
        field_model(r) == (position as int, size as int, value@, right, pad),
{
    Field { position, size, value: copy_chars(value), right, pad }
}

/// Builds a field from a string slice.
pub fn field_str(position: usize, size: usize, value: &str, right: bool, pad: char) -> (r: Field)
    ensures
        field_model(r) == (position as int, size as int, value@, right, pad),
{
    Field { position, size, value: chars_of(value), right, pad }
}

pub fn fill_chars(n: usize, pad: char) -> (r: Vec<char>)
    ensures
        r@ == Seq::new(n as nat, |i: int| pad),
{
    let mut out: Vec<char> = Vec::new();
    for i in 0..n
        invariant
            out@ == Seq::new(i as nat, |k: int| pad),
    {
        out.push(pad);
        proof {
            assert(out@ =~= Seq::new((i + 1) as nat, |k: int| pad));
        }
    }
    out
}

/// `fit`: cut to `size` characters, then padded to `size` bytes.
pub fn fit_value(value: &Vec<char>, size: usize, right: bool, pad: char) -> (r: Vec<char>)
    ensures
        r@ == fit(value@, size as int, right, pad),
{
    let cleaned = take_chars_vec(value, size);
    let n = match utf8_len_upto(&cleaned, size) {
        Some(bytes) => {
            if bytes == size {
                return cleaned;
            }
            size - bytes
        },
        None => 0,
    };
    let fill = fill_chars(n, pad);
    if right {
        concat_chars(&fill, &cleaned)
    } else {
        concat_chars(&cleaned, &fill)
    }
}

/// `put`: writes one field into the buffer.
pub fn put_field(buffer: &mut Vec<char>, f: &Field)
    ensures
        final(buffer)@ == put(old(buffer)@, f.position as int, f.size as int, f.value@, f.right, f.pad),
{
    let start: usize = if f.position >= 1 {
        f.position - 1
    } else {
        0
    };
    let fitted = fit_value(&f.value, f.size, f.right, f.pad);
    let n = if f.size < fitted.len() {
        f.size
    } else {
        fitted.len()
    };
    let ghost before = buffer@;
    let ghost target = put(before, f.position as int, f.size as int, f.value@, f.right, f.pad);
    let mut index: usize = 0;
    while index < n
        invariant
            n <= fitted@.len(),
            n as int == min_int(f.size as int, fitted@.len() as int),
            fitted@ == fit(f.value@, f.size as int, f.right, f.pad),
            start as int == field_start(f.position as int),
            buffer@.len() == before.len(),
            index <= n,
            forall|k: int|
                0 <= k < buffer@.len() ==> #[trigger] buffer@[k] == (if start <= k && k < start
                    + index {
                    fitted@[k - start]
                } else {
                    before[k]
                }),
        decreases n - index,
    {
        if start < buffer.len() && index < buffer.len() - start {
            buffer.set(start + index, fitted[index]);
        }
        index = index + 1;
    }
    proof {
        assert(buffer@ =~= target);
    }
}

/// Writes the fields, in order, over a line of `len` spaces.
pub fn render_fields(len: usize, fields: &Vec<Field>) -> (r: Vec<char>)
    ensures
        r@ == apply_fields(blank_line(len as nat), fields_model(fields@)),
{
    let mut buf = fill_chars(len, ' ');
    proof {
        assert(buf@ =~= blank_line(len as nat));
    }
    for i in 0..fields.len()
        invariant
            buf@ == apply_fields(blank_line(len as nat), fields_model(fields@.take(i as int))),
    {
        put_field(&mut buf, &fields[i]);
        proof {
            let m = fields_model(fields@.take(i + 1));
            assert(m.drop_last() =~= fields_model(fields@.take(i as int)));
            assert(m.last() == field_model(fields@[i as int]));
        }
    }
    proof {
        assert(fields@.take(fields@.len() as int) =~= fields@);
    }
    buf
}

// ---------------------------------------------------------------------------
// Properties of records
// ---------------------------------------------------------------------------

/// Writing fields never changes the length of the line.
pub proof fn lemma_apply_fields_len(buf: Seq<char>, fields: Seq<FieldModel>)
    ensures
        apply_fields(buf, fields).len() == buf.len(),
    decreases fields.len(),
{
    if fields.len() > 0 {
        lemma_apply_fields_len(buf, fields.drop_last());
    }
}

/// The characters a field can write: from its start, at most `size`.
pub open spec fn covers(f: FieldModel, k: int) -> bool {
    field_start(f.0) <= k && k < field_start(f.0) + f.1
}

/// A character that no field covers keeps its value.
pub proof fn lemma_apply_fields_untouched(buf: Seq<char>, fields: Seq<FieldModel>, k: int)
    requires
        0 <= k < buf.len(),
        forall|j: int| 0 <= j < fields.len() ==> !covers(#[trigger] fields[j], k),
    ensures
        apply_fields(buf, fields)[k] == buf[k],
    decreases fields.len(),
{
    if fields.len() > 0 {
        assert forall|j: int| 0 <= j < fields.drop_last().len() implies !covers(
            #[trigger] fields.drop_last()[j],
            k,
        ) by {
            assert(fields.drop_last()[j] == fields[j]);
        }
        lemma_apply_fields_untouched(buf, fields.drop_last(), k);
        lemma_apply_fields_len(buf, fields.drop_last());
        assert(!covers(fields[fields.len() - 1], k));
    }
}

/// Writing `a` then `b` is writing `a + b`.
pub proof fn lemma_apply_fields_concat(buf: Seq<char>, a: Seq<FieldModel>, b: Seq<FieldModel>)
    ensures
        apply_fields(apply_fields(buf, a), b) == apply_fields(buf, a + b),
    decreases b.len(),
{
    if b.len() == 0 {
        assert(a + b =~= a);
    } else {
        lemma_apply_fields_concat(buf, a, b.drop_last());
        assert((a + b).drop_last() =~= a + b.drop_last());
        assert((a + b).last() == b.last());
    }
}

/// The characters written by the last field of a record.
pub proof fn lemma_last_field_written(buf: Seq<char>, fields: Seq<FieldModel>, k: int)
    requires
        fields.len() > 0,
        0 <= k < buf.len(),
        field_start(fields.last().0) <= k,
        k < field_start(fields.last().0) + min_int(
            fields.last().1,
            fit(fields.last().2, fields.last().1, fields.last().3, fields.last().4).len() as int,
        ),
    ensures
        apply_fields(buf, fields)[k] == fit(
            fields.last().2,
            fields.last().1,
            fields.last().3,
            fields.last().4,
        )[k - field_start(fields.last().0)],
{
    lemma_apply_fields_len(buf, fields.drop_last());
}

/// A field of size one holding one ASCII character is written as is.
pub proof fn lemma_fit_single(c: char, pad: char, right: bool)
    requires
        (c as int) < 0x80,
    ensures
        fit(seq![c], 1, right, pad) == seq![c],
{
    let s = seq![c];
    assert(take_chars(s, 1) =~= s);
    assert(s.drop_last() =~= Seq::<char>::empty());
    assert(utf8_len(s.drop_last()) == 0);
    assert(utf8_len(s) == 1);
}

} // verus!
