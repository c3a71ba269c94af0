//! Domain types: languages, licenses, translations, references and passages.
use vstd::prelude::*;
use vstd::string::StringExecFns;

use crate::text::{
    chars_of, contains_lit, contains_seq, eq_lit, lower_chars, lower_seq, starts_with, starts_with_lit,
    string_of, trim, trim_chars, replace_char, replace_char_vec,
};

verus! {

/// Language of a translation (or of reference display).
#[derive(Debug, Clone, Copy, PartialEq, Eq, Hash, Structural)]
pub enum Lang {
    /// Portuguese.
    Pt,
    /// English.
    En,
}

pub open spec fn lang_code(l: Lang) -> Seq<char> {
    match l {
        Lang::Pt => "pt"@,
        Lang::En => "en"@,
    }
}

/// The language a (trimmed, ASCII-lowercased) key names, if any.
pub open spec fn lang_for_key(k: Seq<char>) -> Option<Lang> {
    if k == "pt"@ || k == "pt-br"@ || k == "por"@ || k == "português"@ || k == "portugues"@ {
        Some(Lang::Pt)
    } else if k == "en"@ || k == "en-us"@ || k == "eng"@ || k == "english"@ || k == "inglês"@
        || k == "ingles"@ {
        Some(Lang::En)
    } else {
        None
    }
}

/// Error for an unknown language code; holds the normalized input.
#[derive(Debug, PartialEq, Eq)]
pub struct UnknownLang(pub String);

impl Lang {
    /// ISO 639-1 code (`"pt"` / `"en"`).
    pub fn code(self) -> (r: &'static str)
        ensures
            r@ == lang_code(self),
    {
        match self {
            Lang::Pt => "pt",
            Lang::En => "en",
        }
    }

    /// Parses a language name or code (trimmed, ASCII case-insensitive).
    pub fn parse(s: &str) -> (r: Result<Lang, UnknownLang>)
        ensures
            match lang_for_key(lower_seq(trim(s@))) {
                Some(l) => r == Ok::<Lang, UnknownLang>(l),
                None => r matches Err(e) && e.0@ == lower_seq(trim(s@)),
            },
    {
        let t = trim_chars(chars_of(s).as_slice());
        let k = lower_chars(t.as_slice());
        let ks = k.as_slice();
        if eq_lit(ks, "pt") || eq_lit(ks, "pt-br") || eq_lit(ks, "por") || eq_lit(ks, "português")
            || eq_lit(ks, "portugues") {
            Ok(Lang::Pt)
        } else if eq_lit(ks, "en") || eq_lit(ks, "en-us") || eq_lit(ks, "eng") || eq_lit(
            ks,
            "english",
        ) || eq_lit(ks, "inglês") || eq_lit(ks, "ingles") {
            Ok(Lang::En)
        } else {
            Err(UnknownLang(string_of(ks)))
        }
    }
}

impl std::str::FromStr for Lang {
    type Err = UnknownLang;

    fn from_str(s: &str) -> Result<Lang, UnknownLang> {
        Lang::parse(s)
    }
}

/// Testament a book belongs to.
#[derive(Debug, Clone, Copy, PartialEq, Eq, Hash, Structural)]
pub enum Testament {
    /// Old Testament.
    Old,
    /// New Testament.
    New,
}

impl Testament {
    /// Database code (`"OT"` / `"NT"`).
    pub fn code(self) -> (r: &'static str)
        ensures
            r@ == (match self {
                Testament::Old => "OT"@,
                Testament::New => "NT"@,
            }),
    {
        match self {
            Testament::Old => "OT",
            Testament::New => "NT",
        }
    }
}

/// License of a translation; governs whether the text may be embedded.
#[derive(Debug, Clone, PartialEq, Eq)]
pub enum License {
    /// Public domain.
    PublicDomain,
    /// Creative Commons Zero.
    Cc0,
    /// Creative Commons with attribution (e.g. `"cc-by"`, `"cc-by-sa"`).
    Cc(String),
    /// Protected translation, only through a user-keyed connector.
    Proprietary,
    /// Any other license, as free text.
    Other(String),
}

/// Abstract license: the payload of `Cc`/`Other` by its characters.
pub enum LicenseView {
    PublicDomain,
    Cc0,
    Cc(Seq<char>),
    Proprietary,
    Other(Seq<char>),
}

impl View for License {
    type V = LicenseView;

    open spec fn view(&self) -> LicenseView {
        match self {
            License::PublicDomain => LicenseView::PublicDomain,
            License::Cc0 => LicenseView::Cc0,
            License::Cc(s) => LicenseView::Cc(s@),
            License::Proprietary => LicenseView::Proprietary,
            License::Other(s) => LicenseView::Other(s@),
        }
    }
}

pub open spec fn license_text(l: LicenseView) -> Seq<char> {
    match l {
        LicenseView::PublicDomain => "public-domain"@,
        LicenseView::Cc0 => "cc0"@,
        LicenseView::Cc(s) => s,
        LicenseView::Proprietary => "proprietary"@,
        LicenseView::Other(s) => s,
    }
}

/// A Creative Commons variant is free to redistribute when it has neither a
/// NonCommercial (`nc`) nor a NoDerivatives (`nd`) clause.
pub open spec fn license_embeddable(l: LicenseView) -> bool {
    match l {
        LicenseView::PublicDomain | LicenseView::Cc0 => true,
        LicenseView::Cc(s) => !contains_seq(lower_seq(s), "nc"@) && !contains_seq(
            lower_seq(s),
            "nd"@,
        ),
        _ => false,
    }
}

/// License named by free text (trimmed, ASCII-lowercased key `k`).
pub open spec fn license_for_key(k: Seq<char>) -> LicenseView {
    if k == "public-domain"@ || k == "public domain"@ || k == "pd"@ {
        LicenseView::PublicDomain
    } else if k == "cc0"@ || k == "cc-0"@ {
        LicenseView::Cc0
    } else if k == "proprietary"@ || k == "copyrighted"@ || k == "all-rights-reserved"@ {
        LicenseView::Proprietary
    } else if starts_with(k, "cc-"@) || starts_with(k, "cc "@) {
        LicenseView::Cc(replace_char(k, ' ', '-'))
    } else {
        LicenseView::Other(k)
    }
}

impl License {
    /// Canonical text of the license column.
    pub fn as_str(&self) -> (r: &str)
        ensures
            r@ == license_text(self@),
    {
        match self {
            License::PublicDomain => "public-domain",
            License::Cc0 => "cc0",
            License::Cc(s) => s.as_str(),
            License::Proprietary => "proprietary",
            License::Other(s) => s.as_str(),
        }
    }

    /// `true` if the license allows embedding and redistributing the text.
    pub fn is_embeddable(&self) -> (r: bool)
        ensures
            r == license_embeddable(self@),
    {
        match self {
            License::PublicDomain | License::Cc0 => true,
            License::Cc(s) => {
                let l = lower_chars(chars_of(s.as_str()).as_slice());
                !contains_lit(l.as_slice(), "nc") && !contains_lit(l.as_slice(), "nd")
            },
            License::Proprietary | License::Other(_) => false,
        }
    }

    /// Reads a license from free text (trimmed, ASCII case-insensitive).
    pub fn parse(s: &str) -> (r: License)
        ensures
            r@ == license_for_key(lower_seq(trim(s@))),
    {
        let t = trim_chars(chars_of(s).as_slice());
        let k = lower_chars(t.as_slice());
        let ks = k.as_slice();
        if eq_lit(ks, "public-domain") || eq_lit(ks, "public domain") || eq_lit(ks, "pd") {
            License::PublicDomain
        } else if eq_lit(ks, "cc0") || eq_lit(ks, "cc-0") {
            License::Cc0
        } else if eq_lit(ks, "proprietary") || eq_lit(ks, "copyrighted") || eq_lit(
            ks,
            "all-rights-reserved",
        ) {
            License::Proprietary
        } else if starts_with_lit(ks, "cc-") || starts_with_lit(ks, "cc ") {
            let d = replace_char_vec(ks, ' ', '-');
            License::Cc(string_of(d.as_slice()))
        } else {
            License::Other(string_of(ks))
        }
    }
}

impl From<&str> for License {
    /// Reads a license from free text, as [`License::parse`].
    fn from(s: &str) -> (r: License)
        ensures
            r@ == license_for_key(lower_seq(trim(s@))),
    {
        License::parse(s)
    }
}

impl vstd::std_specs::convert::FromSpecImpl<&str> for License {
    /// Not claimed: a `License` holds `String`s, whose values Verus does not
    /// determine from their text, so no spec value can equal the one `from`
    /// builds; what `from` gives is stated on the method, by its view.
    open spec fn obeys_from_spec() -> bool {
        false
    }

    /// A license whose text is the one `from` reads.
    open spec fn from_spec(v: &str) -> License {
        choose|l: License| l@ == license_for_key(lower_seq(trim(v@)))
    }
}

/// Stable identifier (slug) of a translation, e.g. `"kjv"`.
#[derive(Debug, Clone, PartialEq, Eq, Hash)]
pub struct TranslationId(pub String);

impl TranslationId {
    /// Creates an id, trimmed and ASCII-lowercased.
    pub fn new(s: &str) -> (r: TranslationId)
        ensures
            r.0@ == lower_seq(trim(s@)),
    {
        let t = trim_chars(chars_of(s).as_slice());
        let k = lower_chars(t.as_slice());
        TranslationId(string_of(k.as_slice()))
    }

    /// The inner slug.
    pub fn as_str(&self) -> (r: &str)
        ensures
            r@ == self.0@,
    {
        self.0.as_str()
    }
}

/// Metadata of an available translation.
#[derive(Debug, Clone, PartialEq, Eq)]
pub struct Translation {
    pub id: TranslationId,
    pub abbrev: String,
    pub name: String,
    pub language: Lang,
    pub license: License,
    pub embeddable: bool,
}

/// Which verses of a chapter a reference covers.
#[derive(Debug, Clone, Copy, PartialEq, Eq, Hash, Structural)]
pub enum VerseRange {
    /// One verse.
    Single(u16),
    /// Inclusive range; `start <= end` when produced by the parser.
    Range { start: u16, end: u16 },
    /// The whole chapter.
    WholeChapter,
}

impl VerseRange {
    /// First verse covered, `None` for a whole chapter.
    pub fn start(&self) -> (r: Option<u16>)
        ensures
            r == (match *self {
                VerseRange::Single(v) => Some(v),
                VerseRange::Range { start, .. } => Some(start),
                VerseRange::WholeChapter => None,
            }),
    {
        match self {
            VerseRange::Single(v) => Some(*v),
            VerseRange::Range { start, .. } => Some(*start),
            VerseRange::WholeChapter => None,
        }
    }

    /// Last verse covered, `None` for a whole chapter.
    pub fn end(&self) -> (r: Option<u16>)
        ensures
            r == (match *self {
                VerseRange::Single(v) => Some(v),
                VerseRange::Range { end, .. } => Some(end),
                VerseRange::WholeChapter => None,
            }),
    {
        match self {
            VerseRange::Single(v) => Some(*v),
            VerseRange::Range { end, .. } => Some(*end),
            VerseRange::WholeChapter => None,
        }
    }

    /// `true` if verse `v` lies in the range.
    pub fn contains(&self, v: u16) -> (r: bool)
        ensures
            r == (match *self {
                VerseRange::Single(s) => s == v,
                VerseRange::Range { start, end } => start <= v && v <= end,
                VerseRange::WholeChapter => true,
            }),
    {
        match self {
            VerseRange::Single(s) => *s == v,
            VerseRange::Range { start, end } => *start <= v && v <= *end,
            VerseRange::WholeChapter => true,
        }
    }
}

/// A resolved Bible reference: canonical book, chapter and verses.
#[derive(Debug, Clone, Copy, PartialEq, Eq, Hash, Structural)]
pub struct Reference {
    /// Canonical book number, `1..=66`.
    pub book: u8,
    /// Chapter, `>= 1`.
    pub chapter: u16,
    /// Verses covered.
    pub verses: VerseRange,
}

impl Reference {
    /// Reference to one verse.
    pub fn single(book: u8, chapter: u16, verse: u16) -> (r: Reference)
        ensures
            r == (Reference { book, chapter, verses: VerseRange::Single(verse) }),
    {
        Reference { book, chapter, verses: VerseRange::Single(verse) }
    }

    /// Reference to a whole chapter.
    pub fn whole_chapter(book: u8, chapter: u16) -> (r: Reference)
        ensures
            r == (Reference { book, chapter, verses: VerseRange::WholeChapter }),
    {
        Reference { book, chapter, verses: VerseRange::WholeChapter }
    }
}

/// A verse with its text, from a given translation.
#[derive(Debug, Clone, PartialEq, Eq)]
pub struct Verse {
    pub reference: Reference,
    pub text: String,
    pub translation: TranslationId,
}

/// A passage: the requested reference and its verses, in order.
#[derive(Debug, Clone, PartialEq, Eq)]
pub struct Passage {
    pub reference: Reference,
    pub verses: Vec<Verse>,
}

/// First verse number of a range (none for a whole chapter).
pub open spec fn range_first(v: VerseRange) -> Option<u16> {
    match v {
        VerseRange::Single(n) => Some(n),
        VerseRange::Range { start, .. } => Some(start),
        VerseRange::WholeChapter => None,
    }
}

/// The first verse numbers of `vs`, skipping whole chapters, in order.
pub open spec fn first_verse_numbers(vs: Seq<Verse>) -> Seq<u16>
    decreases vs.len(),
{
    if vs.len() == 0 {
        seq![]
    } else {
        let rest = first_verse_numbers(vs.drop_last());
        match range_first(vs.last().reference.verses) {
            Some(n) => rest.push(n),
            None => rest,
        }
    }
}

impl Passage {
    /// `true` if no verse was found.
    pub fn is_empty(&self) -> (r: bool)
        ensures
            r == (self.verses.len() == 0),
    {
        self.verses.len() == 0
    }

    /// Verse numbers present (start of each range; whole chapters skipped).
    pub fn verse_numbers(&self) -> (r: Vec<u16>)
        ensures
            r@ == first_verse_numbers(self.verses@),
    {
        let mut r: Vec<u16> = Vec::new();
        let mut i: usize = 0;
        while i < self.verses.len()
            invariant
                i <= self.verses.len(),
                r@ == first_verse_numbers(self.verses@.take(i as int)),
            decreases self.verses.len() - i,
        {
            assert(self.verses@.take((i + 1) as int).drop_last() =~= self.verses@.take(i as int));
            match self.verses[i].reference.verses {
                VerseRange::Single(n) => r.push(n),
                VerseRange::Range { start, .. } => r.push(start),
                VerseRange::WholeChapter => {},
            }
            i = i + 1;
        }
        assert(self.verses@.take(self.verses.len() as int) =~= self.verses@);
        r
    }
}

/// A language code is read back as that language.
pub proof fn lemma_lang_code_key(l: Lang)
    ensures
        lower_seq(trim(lang_code(l))) == lang_code(l),
        lang_for_key(lang_code(l)) == Some(l),
{
    reveal_strlit("pt");
    reveal_strlit("pt-br");
    reveal_strlit("por");
    reveal_strlit("português");
    reveal_strlit("portugues");
    reveal_strlit("en");
    reveal_strlit("en-us");
    reveal_strlit("eng");
    reveal_strlit("english");
    reveal_strlit("inglês");
    reveal_strlit("ingles");
    let c = lang_code(l);
    crate::text::lemma_trim_plain(c);
    assert(lower_seq(c) =~= c);
}

/// An identifier is already in the form `TranslationId::new` gives:
/// building one from the text of another gives the same text.
pub proof fn lemma_translation_id_idempotent(s: Seq<char>)
    ensures
        lower_seq(trim(lower_seq(trim(s)))) == lower_seq(trim(s)),
{
    crate::text::lemma_trim_idem(s);
    crate::text::lemma_lower_trimmed(trim(s));
}

} // verus!
