//! Importing free Bible translations (PT + EN) into the store: the registry
//! of the translations that may be embedded (public domain only; anything
//! else is refused), the arguments of the `import` command, and the turning
//! of a downloaded dataset (already decoded from JSON) into numbered verses.
use vstd::prelude::*;
use vstd::string::StringExecFns;

use crate::model::{lang_code, Lang};
use crate::sorted::strs;
use crate::text::{
    chars_of, copy_str, decimal, join, join_strings, push_decimal, split, split_chars, string_of,
    trim, trim_chars,
};

verus! {

/// Raw shape of a supported dataset.
#[derive(Debug, Clone, Copy, PartialEq, Eq, Structural)]
pub enum Format {
    /// `{translation, books:[{name, chapters:[{chapter, verses:[{verse, text}]}]}]}`.
    Scrollmapper,
    /// `[{abbrev, name, chapters:[[verse text, ...], ...]}]` (positional).
    ThiagobodrukArray,
}

/// A free translation that may be embedded.
#[derive(Debug, Clone, Copy)]
pub struct TranslationSpec {
    /// Id in the store.
    pub id: &'static str,
    /// Display abbreviation.
    pub abbrev: &'static str,
    /// Full name.
    pub name: &'static str,
    pub lang: Lang,
    /// Licence text (stored with the translation).
    pub license: &'static str,
    /// Pinned URL of the raw dataset.
    pub url: &'static str,
    pub format: Format,
    /// Expected number of verses (a guard against drift).
    pub expected_verses: usize,
}

/// Ids of the translations that may be imported, in order.
pub open spec fn translation_ids() -> Seq<Seq<char>> {
    seq!["kjv"@, "alm1911"@]
}

/// The registry of free translations. Protected translations are never
/// added here.
pub fn translation_specs() -> (r: Vec<TranslationSpec>)
    ensures
        r@.map_values(|s: TranslationSpec| s.id@) == translation_ids(),
        r@.len() == 2,
        r@[0].lang == Lang::En && r@[0].license@ == "public-domain"@ && r@[0].format == Format::Scrollmapper
            && r@[0].expected_verses == 31102,
        r@[1].lang == Lang::Pt && r@[1].license@ == "public-domain"@ && r@[1].format
            == Format::ThiagobodrukArray && r@[1].expected_verses == 31101,
{
    let r = vec![
        TranslationSpec {
            id: "kjv",
            abbrev: "KJV",
            name: "King James Version",
            lang: Lang::En,
            license: "public-domain",
            url: "https://raw.githubusercontent.com/scrollmapper/bible_databases/master/formats/json/KJV.json",
            format: Format::Scrollmapper,
            expected_verses: 31102,
        },
        TranslationSpec {
            id: "alm1911",
            abbrev: "ALM1911",
            name: "Almeida 1911",
            lang: Lang::Pt,
            license: "public-domain",
            url: "https://github.com/damarals/biblias/releases/download/v1.0.0/ALM1911.json",
            format: Format::ThiagobodrukArray,
            expected_verses: 31101,
        },
    ];
    assert(r@.map_values(|s: TranslationSpec| s.id@) =~= translation_ids());
    r
}

/// The registered translation with this id, if any.
pub fn translation_spec(id: &str) -> (r: Option<TranslationSpec>)
    ensures
        translation_ids().contains(id@) ==> (r matches Some(s) && s.id@ == id@),
        !translation_ids().contains(id@) ==> r is None,
{
    let all = translation_specs();
    let ghost ids = all@.map_values(|s: TranslationSpec| s.id@);
    let mut i: usize = 0;
    while i < all.len()
        invariant
            i <= all@.len(),
            ids == all@.map_values(|s: TranslationSpec| s.id@),
            ids == translation_ids(),
            forall|j: int| 0 <= j < i ==> (#[trigger] ids[j]) != id@,
        decreases all@.len() - i,
    {
        assert(ids[i as int] == all@[i as int].id@);
        if crate::text::str_eq(all[i].id, id) {
            assert(translation_ids().contains(id@)) by {
                assert(translation_ids()[i as int] == id@);
            }
            return Some(all[i]);
        }
        i = i + 1;
    }
    proof {
        if translation_ids().contains(id@) {
            let w = choose|w: int| 0 <= w < translation_ids().len() && translation_ids()[w] == id@;
            assert(ids[w] != id@);
        }
    }
    None
}

/// The free translations available (for help and errors).
pub fn available_versions() -> (r: String)
    ensures
        r@ == join(
            translation_specs_view(),
            ", "@,
        ),
{
    let all = translation_specs();
    let mut parts: Vec<String> = Vec::new();
    let mut i: usize = 0;
    while i < all.len()
        invariant
            i <= all@.len(),
            all@.len() == 2,
            strs(parts@) == all@.take(i as int).map_values(|s: TranslationSpec| version_line(s)),
        decreases all@.len() - i,
    {
        let s = all[i];
        let mut p = copy_str(s.id);
        p.append(" (");
        p.append(s.lang.code());
        p.append(", ");
        p.append(s.license);
        p.append(")");
        let ghost p0 = parts@;
        parts.push(p);
        assert(strs(parts@) =~= strs(p0).push(version_line(s)));
        assert(all@.take(i + 1).map_values(|s: TranslationSpec| version_line(s)) =~= all@.take(
            i as int,
        ).map_values(|s: TranslationSpec| version_line(s)).push(version_line(s)));
        i = i + 1;
    }
    assert(all@.take(2) =~= all@);
    proof {
        assert(translation_specs_view() == all@.map_values(|s: TranslationSpec| version_line(s))) by {
            lemma_specs_view(all@);
        }
    }
    join_strings(parts.as_slice(), ", ")
}

/// One entry of the list of versions.
pub open spec fn version_line(s: TranslationSpec) -> Seq<char> {
    s.id@ + " ("@ + lang_code(s.lang) + ", "@ + s.license@ + ")"@
}

/// The entries of the registered translations.
pub open spec fn translation_specs_view() -> Seq<Seq<char>> {
    seq![
        "kjv"@ + " ("@ + lang_code(Lang::En) + ", "@ + "public-domain"@ + ")"@,
        "alm1911"@ + " ("@ + lang_code(Lang::Pt) + ", "@ + "public-domain"@ + ")"@,
    ]
}

proof fn lemma_specs_view(all: Seq<TranslationSpec>)
    requires
        all.map_values(|s: TranslationSpec| s.id@) == translation_ids(),
        all.len() == 2,
        all[0].lang == Lang::En && all[0].license@ == "public-domain"@,
        all[1].lang == Lang::Pt && all[1].license@ == "public-domain"@,
    ensures
        translation_specs_view() == all.map_values(|s: TranslationSpec| version_line(s)),
{
    assert(all.map_values(|s: TranslationSpec| s.id@)[0] == all[0].id@);
    assert(all.map_values(|s: TranslationSpec| s.id@)[1] == all[1].id@);
    assert(translation_specs_view() =~= all.map_values(|s: TranslationSpec| version_line(s)));
}

// ---------------------------------------------------------------------------
// The command line.
// ---------------------------------------------------------------------------
/// Options of the `import` command.
#[derive(Debug, Clone, PartialEq, Eq)]
pub struct ImportOptions {
    /// Translation ids asked for.
    pub versions: Vec<String>,
    /// Store path (`None`: the default one).
    pub db_path: Option<String>,
    /// Folder of the raw files.
    pub seed_dir: String,
    /// Download again even when the file is there.
    pub force: bool,
    /// Never download.
    pub offline: bool,
}

/// The non-empty trimmed pieces of a list split at commas.
pub open spec fn items_of(ps: Seq<Seq<char>>) -> Seq<Seq<char>>
    decreases ps.len(),
{
    if ps.len() == 0 {
        seq![]
    } else {
        let rest = items_of(ps.drop_last());
        let t = trim(ps.last());
        if t.len() > 0 {
            rest.push(t)
        } else {
            rest
        }
    }
}

/// The state of the options after the arguments from `i` on, or the error.
pub open spec fn parse_args_from(args: Seq<Seq<char>>, i: int, st: (Seq<Seq<char>>, Option<Seq<char>>, Seq<char>, bool, bool)) -> Result<
    (Seq<Seq<char>>, Option<Seq<char>>, Seq<char>, bool, bool),
    Seq<char>,
>
    decreases args.len() - i,
{
    if i < 0 || i >= args.len() {
        Ok(st)
    } else {
        let a = args[i];
        if a == "--version"@ || a == "-v"@ {
            if i + 1 >= args.len() {
                Err("--version requer um valor"@)
            } else {
                parse_args_from(args, i + 2, (st.0 + items_of(split(args[i + 1], ',')), st.1, st.2, st.3, st.4))
            }
        } else if a == "--db"@ {
            if i + 1 >= args.len() {
                Err("--db requer um caminho"@)
            } else {
                parse_args_from(args, i + 2, (st.0, Some(args[i + 1]), st.2, st.3, st.4))
            }
        } else if a == "--seed-dir"@ {
            if i + 1 >= args.len() {
                Err("--seed-dir requer um caminho"@)
            } else {
                parse_args_from(args, i + 2, (st.0, st.1, args[i + 1], st.3, st.4))
            }
        } else if a == "--force"@ {
            parse_args_from(args, i + 1, (st.0, st.1, st.2, true, st.4))
        } else if a == "--offline"@ {
            parse_args_from(args, i + 1, (st.0, st.1, st.2, st.3, true))
        } else {
            Err("argumento desconhecido para `import`: "@ + a)
        }
    }
}

pub open spec fn options_view(o: ImportOptions) -> (Seq<Seq<char>>, Option<Seq<char>>, Seq<char>, bool, bool) {
    (
        strs(o.versions@),
        match o.db_path {
            Some(p) => Some(p@),
            None => None,
        },
        o.seed_dir@,
        o.force,
        o.offline,
    )
}

/// The defaults: no version, the default store, `data/seed`, no force, online.
pub open spec fn default_options() -> (Seq<Seq<char>>, Option<Seq<char>>, Seq<char>, bool, bool) {
    (seq![], None, "data/seed"@, false, false)
}

fn list_pieces(v: &str) -> (r: Vec<String>)
    ensures
        strs(r@) == items_of(split(v@, ',')),
{
    let cs = chars_of(v);
    let ps = split_chars(cs.as_slice(), ',');
    let ghost pv = split(v@, ',');
    assert(ps@.map_values(|w: Vec<char>| w@) == pv);
    let mut out: Vec<String> = Vec::new();
    let mut i: usize = 0;
    while i < ps.len()
        invariant
            i <= ps@.len(),
            ps@.map_values(|w: Vec<char>| w@) == pv,
            strs(out@) == items_of(pv.take(i as int)),
        decreases ps@.len() - i,
    {
        assert(ps@[i as int]@ == pv[i as int]);
        let t = trim_chars(ps[i].as_slice());
        assert(pv.take(i + 1).drop_last() =~= pv.take(i as int));
        if t.len() > 0 {
            let ghost o0 = out@;
            out.push(string_of(t.as_slice()));
            assert(strs(out@) =~= strs(o0).push(t@));
        }
        i = i + 1;
    }
    assert(pv.take(ps@.len() as int) =~= pv);
    out
}

/// Parses the arguments of the `import` command.
pub fn parse_import_args(args: &[String]) -> (r: Result<ImportOptions, String>)
    ensures
        match parse_args_from(strs(args@), 0, default_options()) {
            Ok(st) => r matches Ok(o) && options_view(o) == st,
            Err(m) => r matches Err(e) && e@ == m,
        },
{
    let ghost av = strs(args@);
    let mut versions: Vec<String> = Vec::new();
    let mut db_path: Option<String> = None;
    let mut seed_dir = copy_str("data/seed");
    let mut force = false;
    let mut offline = false;
    let mut i: usize = 0;
    assert(strs(versions@) =~= Seq::<Seq<char>>::empty());
    assert(options_view(ImportOptions { versions, db_path, seed_dir, force, offline }) == default_options());
    while i < args.len()
        invariant
            i <= args@.len(),
            av == strs(args@),
            parse_args_from(av, 0, default_options()) == parse_args_from(
                av,
                i as int,
                options_view(ImportOptions { versions, db_path, seed_dir, force, offline }),
            ),
        decreases args@.len() - i,
    {
        let a = args[i].as_str();
        assert(a@ == av[i as int]);
        let ghost st = options_view(ImportOptions { versions, db_path, seed_dir, force, offline });
        if crate::text::str_eq(a, "--version") || crate::text::str_eq(a, "-v") {
            if i + 1 >= args.len() {
                return Err(copy_str("--version requer um valor"));
            }
            let items = list_pieces(args[i + 1].as_str());
            assert(args@[i + 1]@ == av[i + 1]);
            let ghost v0 = strs(versions@);
            let mut k: usize = 0;
            while k < items.len()
                invariant
                    k <= items@.len(),
                    strs(versions@) == v0 + strs(items@).take(k as int),
                decreases items@.len() - k,
            {
                let ghost vb = versions@;
                versions.push(copy_str(items[k].as_str()));
                assert(strs(versions@) =~= strs(vb).push(items@[k as int]@));
                assert(strs(items@).take(k + 1) =~= strs(items@).take(k as int).push(items@[k as int]@));
                k = k + 1;
            }
            assert(strs(items@).take(items@.len() as int) =~= strs(items@));
            i = i + 2;
        } else if crate::text::str_eq(a, "--db") {
            if i + 1 >= args.len() {
                return Err(copy_str("--db requer um caminho"));
            }
            db_path = Some(copy_str(args[i + 1].as_str()));
            assert(args@[i + 1]@ == av[i + 1]);
            i = i + 2;
        } else if crate::text::str_eq(a, "--seed-dir") {
            if i + 1 >= args.len() {
                return Err(copy_str("--seed-dir requer um caminho"));
            }
            seed_dir = copy_str(args[i + 1].as_str());
            assert(args@[i + 1]@ == av[i + 1]);
            i = i + 2;
        } else if crate::text::str_eq(a, "--force") {
            force = true;
            i = i + 1;
        } else if crate::text::str_eq(a, "--offline") {
            offline = true;
            i = i + 1;
        } else {
            let mut m = copy_str("argumento desconhecido para `import`: ");
            m.append(a);
            return Err(m);
        }
    }
    Ok(ImportOptions { versions, db_path, seed_dir, force, offline })
}

// ---------------------------------------------------------------------------
// Datasets.
// ---------------------------------------------------------------------------
/// A verse ready to be stored.
#[derive(Debug, Clone, PartialEq, Eq)]
pub struct ParsedVerse {
    pub book_number: u8,
    pub chapter: u16,
    pub verse: u16,
    pub text: String,
}

pub open spec fn parsed_view(v: ParsedVerse) -> (u8, u16, u16, Seq<char>) {
    (v.book_number, v.chapter, v.verse, v.text@)
}

pub open spec fn parsed_views(vs: Seq<ParsedVerse>) -> Seq<(u8, u16, u16, Seq<char>)> {
    vs.map_values(|v: ParsedVerse| parsed_view(v))
}

/// A verse of a scrollmapper dataset.
#[derive(Debug, Clone, PartialEq, Eq)]
pub struct SmVerse {
    pub verse: u16,
    pub text: String,
}

/// A chapter of a scrollmapper dataset.
#[derive(Debug, Clone, PartialEq, Eq)]
pub struct SmChapter {
    pub chapter: u16,
    pub verses: Vec<SmVerse>,
}

/// A book of a scrollmapper dataset (its place in the list is its number).
#[derive(Debug, Clone, PartialEq, Eq)]
pub struct SmBook {
    pub chapters: Vec<SmChapter>,
}

/// The error of a dataset without the 66 books.
pub open spec fn book_count_message(n: nat) -> Seq<char> {
    "esperados 66 livros, encontrados "@ + decimal(n)
}

pub open spec fn sm_chapter_verses(b: u8, c: SmChapter) -> Seq<(u8, u16, u16, Seq<char>)> {
    c.verses@.map_values(|v: SmVerse| (b, c.chapter, v.verse, trim(v.text@)))
}

pub open spec fn sm_book_verses(b: u8, cs: Seq<SmChapter>) -> Seq<(u8, u16, u16, Seq<char>)>
    decreases cs.len(),
{
    if cs.len() == 0 {
        seq![]
    } else {
        sm_book_verses(b, cs.drop_last()) + sm_chapter_verses(b, cs.last())
    }
}

/// The verses of the books, in order: book `i` (from 0) is number `i + 1`;
/// texts are trimmed.
pub open spec fn sm_verses(books: Seq<SmBook>) -> Seq<(u8, u16, u16, Seq<char>)>
    decreases books.len(),
{
    if books.len() == 0 {
        seq![]
    } else {
        sm_verses(books.drop_last()) + sm_book_verses(books.len() as u8, books.last().chapters@)
    }
}

fn push_chapter(out: &mut Vec<ParsedVerse>, b: u8, c: &SmChapter)
    ensures
        parsed_views(final(out)@) == parsed_views(old(out)@) + sm_chapter_verses(b, *c),
{
    let ghost base = parsed_views(out@);
    let mut k: usize = 0;
    while k < c.verses.len()
        invariant
            k <= c.verses@.len(),
            parsed_views(out@) == base + sm_chapter_verses(b, *c).take(k as int),
        decreases c.verses@.len() - k,
    {
        let v = &c.verses[k];
        let t = trim_chars(chars_of(v.text.as_str()).as_slice());
        let ghost o0 = out@;
        out.push(ParsedVerse { book_number: b, chapter: c.chapter, verse: v.verse, text: string_of(t.as_slice()) });
        assert(parsed_views(out@) =~= parsed_views(o0).push((b, c.chapter, v.verse, trim(v.text@))));
        assert(sm_chapter_verses(b, *c).take(k + 1) =~= sm_chapter_verses(b, *c).take(k as int).push(
            (b, c.chapter, v.verse, trim(v.text@)),
        ));
        k = k + 1;
    }
    assert(sm_chapter_verses(b, *c).take(c.verses@.len() as int) =~= sm_chapter_verses(b, *c));
}

/// The verses of a scrollmapper dataset, which must hold the 66 books.
pub fn scrollmapper_verses(books: &[SmBook]) -> (r: Result<Vec<ParsedVerse>, String>)
    ensures
        books@.len() != 66 ==> (r matches Err(m) && m@ == book_count_message(books@.len())),
        books@.len() == 66 ==> (r matches Ok(v) && parsed_views(v@) == sm_verses(books@)),
{
    if books.len() != 66 {
        let mut m = copy_str("esperados 66 livros, encontrados ");
        push_decimal(&mut m, books.len() as u64);
        return Err(m);
    }
    let mut out: Vec<ParsedVerse> = Vec::new();
    let mut i: usize = 0;
    while i < 66
        invariant
            i <= 66,
            books@.len() == 66,
            parsed_views(out@) == sm_verses(books@.take(i as int)),
        decreases 66 - i,
    {
        let b: u8 = (i + 1) as u8;
        let book = &books[i];
        let ghost base = parsed_views(out@);
        let mut j: usize = 0;
        while j < book.chapters.len()
            invariant
                j <= book.chapters@.len(),
                parsed_views(out@) == base + sm_book_verses(b, book.chapters@.take(j as int)),
            decreases book.chapters@.len() - j,
        {
            push_chapter(&mut out, b, &book.chapters[j]);
            assert(book.chapters@.take(j + 1).drop_last() =~= book.chapters@.take(j as int));
            assert(book.chapters@.take(j + 1).last() == book.chapters@[j as int]);
            j = j + 1;
        }
        assert(book.chapters@.take(book.chapters@.len() as int) =~= book.chapters@);
        assert(books@.take(i + 1).drop_last() =~= books@.take(i as int));
        assert(books@.take(i + 1).last() == books@[i as int]);
        assert(books@.take(i + 1).len() as u8 == b);
        i = i + 1;
    }
    assert(books@.take(66) =~= books@);
    Ok(out)
}

/// The verses of a chapter given by position: verse `k` (from 0) is number
/// `k + 1`.
pub open spec fn tb_chapter_verses(b: u8, c: u16, vs: Seq<String>) -> Seq<(u8, u16, u16, Seq<char>)> {
    Seq::new(vs.len(), |k: int| (b, c, (k + 1) as u16, trim(vs[k]@)))
}

pub open spec fn tb_book_verses(b: u8, cs: Seq<Vec<String>>) -> Seq<(u8, u16, u16, Seq<char>)>
    decreases cs.len(),
{
    if cs.len() == 0 {
        seq![]
    } else {
        tb_book_verses(b, cs.drop_last()) + tb_chapter_verses(b, cs.len() as u16, cs.last()@)
    }
}

/// The verses of a positional dataset: book, chapter and verse numbers come
/// from the positions (from 1); texts are trimmed.
pub open spec fn tb_verses(books: Seq<Vec<Vec<String>>>) -> Seq<(u8, u16, u16, Seq<char>)>
    decreases books.len(),
{
    if books.len() == 0 {
        seq![]
    } else {
        tb_verses(books.drop_last()) + tb_book_verses(books.len() as u8, books.last()@)
    }
}

fn push_positional_chapter(out: &mut Vec<ParsedVerse>, b: u8, c: u16, vs: &Vec<String>)
    ensures
        parsed_views(final(out)@) == parsed_views(old(out)@) + tb_chapter_verses(b, c, vs@),
{
    let ghost base = parsed_views(out@);
    let mut k: usize = 0;
    while k < vs.len()
        invariant
            k <= vs@.len(),
            parsed_views(out@) == base + tb_chapter_verses(b, c, vs@).take(k as int),
        decreases vs@.len() - k,
    {
        let t = trim_chars(chars_of(vs[k].as_str()).as_slice());
        let n: u16 = (k + 1) as u16;
        let ghost o0 = out@;
        out.push(ParsedVerse { book_number: b, chapter: c, verse: n, text: string_of(t.as_slice()) });
        assert(parsed_views(out@) =~= parsed_views(o0).push((b, c, n, trim(vs@[k as int]@))));
        assert(tb_chapter_verses(b, c, vs@).take(k + 1) =~= tb_chapter_verses(b, c, vs@).take(k as int).push(
            (b, c, n, trim(vs@[k as int]@)),
        ));
        k = k + 1;
    }
    assert(tb_chapter_verses(b, c, vs@).take(vs@.len() as int) =~= tb_chapter_verses(b, c, vs@));
}

/// The verses of a positional dataset (`[book][chapter][verse]` texts), which
/// must hold the 66 books.
pub fn positional_verses(books: &[Vec<Vec<String>>]) -> (r: Result<Vec<ParsedVerse>, String>)
    ensures
        books@.len() != 66 ==> (r matches Err(m) && m@ == book_count_message(books@.len())),
        books@.len() == 66 ==> (r matches Ok(v) && parsed_views(v@) == tb_verses(books@)),
{
    if books.len() != 66 {
        let mut m = copy_str("esperados 66 livros, encontrados ");
        push_decimal(&mut m, books.len() as u64);
        return Err(m);
    }
    let mut out: Vec<ParsedVerse> = Vec::new();
    let mut i: usize = 0;
    while i < 66
        invariant
            i <= 66,
            books@.len() == 66,
            parsed_views(out@) == tb_verses(books@.take(i as int)),
        decreases 66 - i,
    {
        let b: u8 = (i + 1) as u8;
        let book = &books[i];
        let ghost base = parsed_views(out@);
        let mut j: usize = 0;
        while j < book.len()
            invariant
                j <= book@.len(),
                parsed_views(out@) == base + tb_book_verses(b, book@.take(j as int)),
            decreases book@.len() - j,
        {
            let c: u16 = (j + 1) as u16;
            push_positional_chapter(&mut out, b, c, &book[j]);
            assert(book@.take(j + 1).drop_last() =~= book@.take(j as int));
            assert(book@.take(j + 1).last() == book@[j as int]);
            assert(book@.take(j + 1).len() as u16 == c);
            j = j + 1;
        }
        assert(book@.take(book@.len() as int) =~= book@);
        assert(books@.take(i + 1).drop_last() =~= books@.take(i as int));
        assert(books@.take(i + 1).last() == books@[i as int]);
        assert(books@.take(i + 1).len() as u8 == b);
        i = i + 1;
    }
    assert(books@.take(66) =~= books@);
    Ok(out)
}

// ---------------------------------------------------------------------------
// Checks of a request.
// ---------------------------------------------------------------------------
/// The error for a translation outside the registry.
pub open spec fn unknown_version_message(id: Seq<char>) -> Seq<char> {
    "versão `"@ + id + "` não é uma versão livre conhecida. Versões embarcáveis: "@ + join(
        translation_ids(),
        ", "@,
    ) + ". Versões protegidas NÃO podem ser importadas (ver DATA_SOURCES.md)."@
}

/// The registered translation a request names, or the refusal.
pub fn requested_spec(id: &str) -> (r: Result<TranslationSpec, String>)
    ensures
        translation_ids().contains(id@) ==> (r matches Ok(s) && s.id@ == id@),
        !translation_ids().contains(id@) ==> (r matches Err(m) && m@ == unknown_version_message(id@)),
{
    match translation_spec(id) {
        Some(s) => Ok(s),
        None => {
            let all = translation_specs();
            let mut ids: Vec<String> = Vec::new();
            ids.push(copy_str(all[0].id));
            ids.push(copy_str(all[1].id));
            proof {
                assert(all@.map_values(|s: TranslationSpec| s.id@)[0] == all@[0].id@);
                assert(all@.map_values(|s: TranslationSpec| s.id@)[1] == all@[1].id@);
                assert(strs(ids@) =~= translation_ids());
            }
            let joined = join_strings(ids.as_slice(), ", ");
            let mut m = copy_str("versão `");
            m.append(id);
            m.append("` não é uma versão livre conhecida. Versões embarcáveis: ");
            m.append(joined.as_str());
            m.append(". Versões protegidas NÃO podem ser importadas (ver DATA_SOURCES.md).");
            Err(m)
        },
    }
}

/// The error for a request without versions.
pub open spec fn no_version_message() -> Seq<char> {
    "nenhuma versão informada — use `--version kjv,alm1911`"@
}

/// Refuses a request that names no translation.
pub fn require_versions(opts: &ImportOptions) -> (r: Result<(), String>)
    ensures
        opts.versions@.len() == 0 ==> (r matches Err(m) && m@ == no_version_message()),
        opts.versions@.len() > 0 ==> r is Ok,
{
    if opts.versions.len() == 0 {
        Err(copy_str("nenhuma versão informada — use `--version kjv,alm1911`"))
    } else {
        Ok(())
    }
}

/// The least number of verses of a complete dataset.
pub open spec fn verse_floor() -> nat {
    30000
}

/// The error for a dataset with too few verses.
pub open spec fn too_few_message(id: Seq<char>, count: nat, expected: nat) -> Seq<char> {
    "`"@ + id + "`: apenas "@ + decimal(count) + " versículos parseados (esperado ~"@ + decimal(expected)
        + "); dataset incompleto?"@
}

/// Refuses a dataset with fewer verses than a complete Bible has.
pub fn check_verse_count(spec: &TranslationSpec, count: usize) -> (r: Result<(), String>)
    ensures
        count < verse_floor() ==> (r matches Err(m) && m@ == too_few_message(
            spec.id@,
            count as nat,
            spec.expected_verses as nat,
        )),
        count >= verse_floor() ==> r is Ok,
{
    if count < 30000 {
        let mut m = copy_str("`");
        m.append(spec.id);
        m.append("`: apenas ");
        push_decimal(&mut m, count as u64);
        m.append(" versículos parseados (esperado ~");
        push_decimal(&mut m, spec.expected_verses as u64);
        m.append("); dataset incompleto?");
        Err(m)
    } else {
        Ok(())
    }
}

} // verus!
