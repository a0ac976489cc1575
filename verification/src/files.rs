//! Selection of the input files by extension.
use vstd::prelude::*;

use crate::sped::texts;
use crate::text::{ascii_lower, contains_char, copy_string, lower_seq, str_eq};

verus! {

/// The part of a path after its last `/` (the whole path where it has
/// none).
pub open spec fn last_segment(p: Seq<char>) -> Seq<char> {
    p.skip(crate::money::last_index(p, '/') + 1)
}

/// A path whose file name every platform finds after its last `/`: it
/// holds no `\\` or `:`, and that last part is neither empty, `.` nor
/// `..`.
pub open spec fn plain_path(p: Seq<char>) -> bool {
    &&& !contains_char(p, '\\')
    &&& !contains_char(p, ':')
    &&& last_segment(p).len() > 0
    &&& last_segment(p) != "."@
    &&& last_segment(p) != ".."@
}

/// The extension of a file name as std documents it: none where the name
/// has no `.` or only a leading one, else what follows the last `.`.
pub open spec fn extension_of(name: Seq<char>) -> Option<Seq<char>> {
    let k = crate::money::last_index(name, '.');
    if k <= 0 {
        None
    } else {
        Some(name.skip(k + 1))
    }
}

/// `Path::extension` of std: the part of the file name after its final
/// `.`, as text.  How a path splits into components depends on the
/// platform, so the extension is stated for plain paths (whose file name
/// is their last `/`-separated part everywhere); of any other path only
/// that an extension holds neither `.` nor `/`.
#[verifier::external_body]
fn path_extension(path: &str) -> (r: Option<String>)
    ensures
        r matches Some(e) ==> !contains_char(e@, '.') && !contains_char(e@, '/'),
        plain_path(path@) ==> opt_text(r) == extension_of(last_segment(path@)),
{
    std::path::Path::new(path).extension().and_then(|e| e.to_str()).map(|e| e.to_string())
}

/// An extension that marks an XML or a ZIP file, in any letter case.
pub open spec fn is_xml_or_zip(ext: Option<Seq<char>>) -> bool {
    match ext {
        Some(e) => lower_seq(e) == "xml"@ || lower_seq(e) == "zip"@,
        None => false,
    }
}

pub open spec fn opt_text(o: Option<String>) -> Option<Seq<char>> {
    match o {
        Some(s) => Some(s@),
        None => None,
    }
}

/// Whether an extension marks an XML or a ZIP file.
pub fn extension_is_xml_or_zip(ext: &Option<String>) -> (r: bool)
    ensures
        r == is_xml_or_zip(opt_text(*ext)),
{
    match ext {
        Some(e) => {
            let low = ascii_lower(e.as_str());
            str_eq(low.as_str(), "xml") || str_eq(low.as_str(), "zip")
        },
        None => false,
    }
}

/// Whether the extension of a path marks an XML or a ZIP file.
fn has_xml_or_zip_extension(path: &str) -> (r: bool)
    ensures
        plain_path(path@) ==> r == is_xml_or_zip(extension_of(last_segment(path@))),
{
    let ext = path_extension(path);
    extension_is_xml_or_zip(&ext)
}

/// The paths whose flag is set, in order.
pub open spec fn selected(paths: Seq<Seq<char>>, keep: Seq<bool>) -> Seq<Seq<char>>
    decreases paths.len(),
{
    if paths.len() == 0 || keep.len() < paths.len() {
        seq![]
    } else if keep[paths.len() - 1] {
        selected(paths.drop_last(), keep).push(paths.last())
    } else {
        selected(paths.drop_last(), keep)
    }
}

/// The paths whose extension (given, one per path) marks an XML or ZIP
/// file, in order.
pub fn select_by_extension(paths: &Vec<String>, extensions: &Vec<Option<String>>) -> (r: Vec<
    String,
>)
    requires
        extensions@.len() == paths@.len(),
    ensures
        texts(r@) == selected(
            texts(paths@),
            extensions@.map_values(|e: Option<String>| is_xml_or_zip(opt_text(e))),
        ),
{
    let ghost keep = extensions@.map_values(|e: Option<String>| is_xml_or_zip(opt_text(e)));
    let ghost pv = texts(paths@);
    let mut out: Vec<String> = Vec::new();
    proof {
        assert(texts(out@) =~= selected(pv.take(0), keep));
    }
    for i in 0..paths.len()
        invariant
            extensions@.len() == paths@.len(),
            keep == extensions@.map_values(|e: Option<String>| is_xml_or_zip(opt_text(e))),
            pv == texts(paths@),
            texts(out@) == selected(pv.take(i as int), keep),
    {
        proof {
            assert(pv.take(i + 1).drop_last() =~= pv.take(i as int));
            assert(pv.take(i + 1).last() == paths@[i as int]@);
        }
        if extension_is_xml_or_zip(&extensions[i]) {
            let ghost before = texts(out@);
            out.push(copy_string(&paths[i]));
            proof {
                assert(texts(out@) =~= before.push(paths@[i as int]@));
            }
        }
    }
    proof {
        assert(pv.take(paths@.len() as int) =~= pv);
    }
    out
}

/// Whether a path's file name has an XML or ZIP extension, in any case.
pub open spec fn keeps_path(p: Seq<char>) -> bool {
    is_xml_or_zip(extension_of(last_segment(p)))
}

/// The paths of XML and ZIP files among `paths`, in order.  A plain path
/// is kept exactly when its extension is `xml` or `zip` in any letter
/// case; of another path the platform's split decides.
pub fn list_xml_candidates(paths: &Vec<String>) -> (r: Vec<String>)
    ensures
        exists|keep: Seq<bool>|
            keep.len() == paths@.len() && texts(r@) == #[trigger] selected(texts(paths@), keep) && (forall|i: int|
                0 <= i < paths@.len() && plain_path(paths@[i]@) ==> keep[i] == keeps_path(#[trigger] paths@[i]@)),
{
    let ghost pv = texts(paths@);
    let ghost mut keep: Seq<bool> = Seq::empty();
    let mut out: Vec<String> = Vec::new();
    proof {
        assert(texts(out@) =~= selected(pv.take(0), keep));
    }
    for i in 0..paths.len()
        invariant
            pv == texts(paths@),
            keep.len() == i,
            texts(out@) == selected(pv.take(i as int), keep),
            forall|j: int| 0 <= j < i && plain_path(paths@[j]@) ==> keep[j] == keeps_path(#[trigger] paths@[j]@),
    {
        proof {
            assert(pv.take(i + 1).drop_last() =~= pv.take(i as int));
            assert(pv.take(i + 1).last() == paths@[i as int]@);
        }
        let ghost old_keep = keep;
        let hit = has_xml_or_zip_extension(paths[i].as_str());
        proof {
            keep = keep.push(hit);
            lemma_selected_prefix(pv.take(i as int), old_keep, keep);
        }
        if hit {
            let ghost before = texts(out@);
            out.push(copy_string(&paths[i]));
            proof {
                assert(texts(out@) =~= before.push(paths@[i as int]@));
            }
        }
    }
    proof {
        assert(pv.take(paths@.len() as int) =~= pv);
    }
    out
}

/// The selection reads only the flags of the paths it has.
pub proof fn lemma_selected_prefix(paths: Seq<Seq<char>>, k1: Seq<bool>, k2: Seq<bool>)
    requires
        k1.len() >= paths.len(),
        k2.len() >= paths.len(),
        forall|j: int| 0 <= j < paths.len() ==> k1[j] == k2[j],
    ensures
        selected(paths, k1) == selected(paths, k2),
    decreases paths.len(),
{
    if paths.len() > 0 {
        lemma_selected_prefix(paths.drop_last(), k1, k2);
    }
}

} // verus!
