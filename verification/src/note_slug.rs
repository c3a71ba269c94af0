//! The file name of a note (`John_3.16.md`): a pure transformation of the
//! reference, independent of any storage.
use vstd::prelude::*;
use vstd::string::StringExecFns;

use crate::model::{Lang, Reference};
use crate::reference::{format_reference, format_reference_spec, parse_reference, parse_reference_spec};
use crate::text::{chars_of, replace_char, replace_char_vec, string_of};

verus! {

/// `format_reference(_, En)` with `_` for spaces and `.` for `:`, then `.md`.
pub open spec fn slug_text(r: Reference) -> Seq<char> {
    replace_char(replace_char(format_reference_spec(r, Lang::En), ' ', '_'), ':', '.') + ".md"@
}

/// The reference a file stem names (spaces restored from `_`), if it parses.
pub open spec fn slug_reference(stem: Seq<char>) -> Option<Reference> {
    match parse_reference_spec(replace_char(stem, '_', ' ')) {
        Ok(r) => Some(r),
        Err(_) => None,
    }
}

/// File name (with `.md`) of the note of a reference. Ex.: `John 3:16` →
/// `John_3.16.md`.
pub fn slug(reference: &Reference) -> (r: String)
    ensures
        r@ == slug_text(*reference),
{
    let f = format_reference(reference, Lang::En);
    let v = chars_of(f.as_str());
    let a = replace_char_vec(v.as_slice(), ' ', '_');
    let b = replace_char_vec(a.as_slice(), ':', '.');
    let mut s = string_of(b.as_slice());
    s.append(".md");
    s
}

/// The reference back from a file stem (the name without `.md`): `_` becomes
/// a space again and the result goes to `parse_reference` (which takes `.` as
/// the chapter–verse separator). `None` when it does not parse.
pub fn parse_slug(stem: &str) -> (r: Option<Reference>)
    ensures
        r == slug_reference(stem@),
{
    let v = chars_of(stem);
    let a = replace_char_vec(v.as_slice(), '_', ' ');
    let s = string_of(a.as_slice());
    match parse_reference(s.as_str()) {
        Ok(r) => Some(r),
        Err(_) => None,
    }
}

} // verus!
