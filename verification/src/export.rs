//! Exporting Markdown documents: the file-name slug and the choice between a
//! direct Markdown write and a conversion by `pandoc`.
use vstd::prelude::*;

use crate::text::{ascii_alnum, ascii_lower, chars_of, is_ascii_alnum, join, join_strings, str_eq, string_of, to_ascii_lower};

verus! {

/// Reading one more character: ASCII alphanumerics extend the current run
/// (lowercased); anything else ends it.
pub open spec fn run_step(st: (Seq<Seq<char>>, Seq<char>), c: char) -> (Seq<Seq<char>>, Seq<char>) {
    if ascii_alnum(c) {
        (st.0, st.1.push(ascii_lower(c)))
    } else if st.1.len() > 0 {
        (st.0.push(st.1), seq![])
    } else {
        st
    }
}

pub open spec fn runs_after(s: Seq<char>) -> (Seq<Seq<char>>, Seq<char>)
    decreases s.len(),
{
    if s.len() == 0 {
        (seq![], seq![])
    } else {
        run_step(runs_after(s.drop_last()), s.last())
    }
}

/// The maximal runs of ASCII alphanumerics of `s`, lowercased, in order.
pub open spec fn alnum_runs(s: Seq<char>) -> Seq<Seq<char>> {
    let st = runs_after(s);
    if st.1.len() > 0 {
        st.0.push(st.1)
    } else {
        st.0
    }
}

/// The slug: the alphanumeric runs joined by `-` (so no dash at either end
/// and never two in a row).
pub open spec fn slug_of(s: Seq<char>) -> Seq<char> {
    join(alnum_runs(s), "-"@)
}

/// File-name slug: lowercase, alphanumerics kept, everything else becomes
/// `-`, no dash at the ends (ex.: "Ef 2.8-9 (Presb.)" → "ef-2-8-9-presb").
pub fn slugify(s: &str) -> (r: String)
    ensures
        r@ == slug_of(s@),
{
    let v = chars_of(s);
    let mut done: Vec<String> = Vec::new();
    let mut cur: Vec<char> = Vec::new();
    let mut i: usize = 0;
    while i < v.len()
        invariant
            i <= v.len(),
            v@ == s@,
            (done@.map_values(|x: String| x@), cur@) == runs_after(v@.take(i as int)),
        decreases v.len() - i,
    {
        let c = v[i];
        assert(v@.take((i + 1) as int).drop_last() =~= v@.take(i as int));
        if is_ascii_alnum(c) {
            cur.push(to_ascii_lower(c));
        } else if cur.len() > 0 {
            let ghost d0 = done@;
            done.push(string_of(cur.as_slice()));
            assert(done@.map_values(|x: String| x@) =~= d0.map_values(|x: String| x@).push(cur@));
            cur = Vec::new();
            assert(cur@ =~= Seq::<char>::empty());
        }
        i = i + 1;
    }
    assert(v@.take(v.len() as int) =~= v@);
    if cur.len() > 0 {
        let ghost d0 = done@;
        done.push(string_of(cur.as_slice()));
        assert(done@.map_values(|x: String| x@) =~= d0.map_values(|x: String| x@).push(cur@));
    }
    join_strings(done.as_slice(), "-")
}

/// How a document is exported.
#[derive(Debug, Clone, Copy, PartialEq, Eq, Structural)]
pub enum ExportFormat {
    /// Written as it is (atomic write).
    Markdown,
    /// Converted by `pandoc`, which infers the format from the extension.
    Pandoc,
}

/// The format of an output file by its extension: `md`, `markdown` or none →
/// Markdown; any other extension → pandoc.
pub fn export_format(extension: Option<&str>) -> (r: ExportFormat)
    ensures
        r == (match extension {
            None => ExportFormat::Markdown,
            Some(e) => if e@ == "md"@ || e@ == "markdown"@ {
                ExportFormat::Markdown
            } else {
                ExportFormat::Pandoc
            },
        }),
{
    match extension {
        None => ExportFormat::Markdown,
        Some(e) => if str_eq(e, "md") || str_eq(e, "markdown") {
            ExportFormat::Markdown
        } else {
            ExportFormat::Pandoc
        },
    }
}

} // verus!
