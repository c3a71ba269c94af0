//! Canonical table of the 66 books (Protestant canon): names, abbreviations,
//! extra spellings and chapter counts.
use vstd::prelude::*;

use crate::model::Testament;

verus! {

/// Canonical metadata of a book.
#[derive(Debug, Clone, Copy)]
pub struct BookInfo {
    /// Canonical number, `1..=66`.
    pub number: u8,
    /// English name.
    pub name_en: &'static str,
    /// Portuguese name.
    pub name_pt: &'static str,
    /// Canonical English abbreviation.
    pub abbrev_en: &'static str,
    /// Canonical Portuguese abbreviation (Almeida style).
    pub abbrev_pt: &'static str,
    /// Testament.
    pub testament: Testament,
    /// Extra spellings (PT and EN) accepted by the parser.
    pub aliases: &'static [&'static str],
}

/// Abstract content of a book entry.
pub struct BookSpec {
    pub name_en: Seq<char>,
    pub name_pt: Seq<char>,
    pub abbrev_en: Seq<char>,
    pub abbrev_pt: Seq<char>,
    pub testament: Testament,
    pub aliases: Seq<Seq<char>>,
}

pub open spec fn book_view(b: BookInfo) -> BookSpec {
    BookSpec {
        name_en: b.name_en@,
        name_pt: b.name_pt@,
        abbrev_en: b.abbrev_en@,
        abbrev_pt: b.abbrev_pt@,
        testament: b.testament,
        aliases: b.aliases@.map_values(|a: &str| a@),
    }
}

pub open spec fn valid_book(n: int) -> bool {
    1 <= n <= 66
}

/// The table entry of book `n` (meaningful for `1 <= n <= 66`).
pub open spec fn book_spec(n: int) -> BookSpec {
    if n == 1 {
        BookSpec { name_en: "Genesis"@, name_pt: "Gênesis"@, abbrev_en: "Gen"@, abbrev_pt: "Gn"@, testament: Testament::Old, aliases: seq!["ge"@, "gen"@, "genesis"@] }
    } else if n == 2 {
        BookSpec { name_en: "Exodus"@, name_pt: "Êxodo"@, abbrev_en: "Exod"@, abbrev_pt: "Êx"@, testament: Testament::Old, aliases: seq!["ex"@, "exo"@, "exod"@, "exodo"@] }
    } else if n == 3 {
        BookSpec { name_en: "Leviticus"@, name_pt: "Levítico"@, abbrev_en: "Lev"@, abbrev_pt: "Lv"@, testament: Testament::Old, aliases: seq!["levitico"@, "leviticus"@] }
    } else if n == 4 {
        BookSpec { name_en: "Numbers"@, name_pt: "Números"@, abbrev_en: "Num"@, abbrev_pt: "Nm"@, testament: Testament::Old, aliases: seq!["nu"@, "num"@, "numeros"@, "numbers"@] }
    } else if n == 5 {
        BookSpec { name_en: "Deuteronomy"@, name_pt: "Deuteronômio"@, abbrev_en: "Deut"@, abbrev_pt: "Dt"@, testament: Testament::Old, aliases: seq!["de"@, "deut"@, "deuteronomio"@, "deuteronomy"@] }
    } else if n == 6 {
        BookSpec { name_en: "Joshua"@, name_pt: "Josué"@, abbrev_en: "Josh"@, abbrev_pt: "Js"@, testament: Testament::Old, aliases: seq!["jos"@, "josh"@, "josue"@, "joshua"@] }
    } else if n == 7 {
        BookSpec { name_en: "Judges"@, name_pt: "Juízes"@, abbrev_en: "Judg"@, abbrev_pt: "Jz"@, testament: Testament::Old, aliases: seq!["judg"@, "juizes"@, "judges"@] }
    } else if n == 8 {
        BookSpec { name_en: "Ruth"@, name_pt: "Rute"@, abbrev_en: "Ruth"@, abbrev_pt: "Rt"@, testament: Testament::Old, aliases: seq!["ru"@, "rute"@, "ruth"@] }
    } else if n == 9 {
        BookSpec { name_en: "1 Samuel"@, name_pt: "1 Samuel"@, abbrev_en: "1Sam"@, abbrev_pt: "1Sm"@, testament: Testament::Old, aliases: seq!["1sa"@, "1sam"@, "1samuel"@] }
    } else if n == 10 {
        BookSpec { name_en: "2 Samuel"@, name_pt: "2 Samuel"@, abbrev_en: "2Sam"@, abbrev_pt: "2Sm"@, testament: Testament::Old, aliases: seq!["2sa"@, "2sam"@, "2samuel"@] }
    } else if n == 11 {
        BookSpec { name_en: "1 Kings"@, name_pt: "1 Reis"@, abbrev_en: "1Kgs"@, abbrev_pt: "1Rs"@, testament: Testament::Old, aliases: seq!["1ki"@, "1kgs"@, "1kings"@, "1reis"@] }
    } else if n == 12 {
        BookSpec { name_en: "2 Kings"@, name_pt: "2 Reis"@, abbrev_en: "2Kgs"@, abbrev_pt: "2Rs"@, testament: Testament::Old, aliases: seq!["2ki"@, "2kgs"@, "2kings"@, "2reis"@] }
    } else if n == 13 {
        BookSpec { name_en: "1 Chronicles"@, name_pt: "1 Crônicas"@, abbrev_en: "1Chr"@, abbrev_pt: "1Cr"@, testament: Testament::Old, aliases: seq!["1ch"@, "1chr"@, "1chronicles"@, "1cronicas"@] }
    } else if n == 14 {
        BookSpec { name_en: "2 Chronicles"@, name_pt: "2 Crônicas"@, abbrev_en: "2Chr"@, abbrev_pt: "2Cr"@, testament: Testament::Old, aliases: seq!["2ch"@, "2chr"@, "2chronicles"@, "2cronicas"@] }
    } else if n == 15 {
        BookSpec { name_en: "Ezra"@, name_pt: "Esdras"@, abbrev_en: "Ezra"@, abbrev_pt: "Ed"@, testament: Testament::Old, aliases: seq!["esd"@, "esdras"@, "ezra"@] }
    } else if n == 16 {
        BookSpec { name_en: "Nehemiah"@, name_pt: "Neemias"@, abbrev_en: "Neh"@, abbrev_pt: "Ne"@, testament: Testament::Old, aliases: seq!["neh"@, "neemias"@, "nehemiah"@] }
    } else if n == 17 {
        BookSpec { name_en: "Esther"@, name_pt: "Ester"@, abbrev_en: "Esth"@, abbrev_pt: "Et"@, testament: Testament::Old, aliases: seq!["est"@, "esth"@, "ester"@, "esther"@] }
    } else if n == 18 {
        BookSpec { name_en: "Job"@, name_pt: "Jó"@, abbrev_en: "Job"@, abbrev_pt: "Jó"@, testament: Testament::Old, aliases: seq!["job"@] }
    } else if n == 19 {
        BookSpec { name_en: "Psalms"@, name_pt: "Salmos"@, abbrev_en: "Ps"@, abbrev_pt: "Sl"@, testament: Testament::Old, aliases: seq!["psa"@, "psalm"@, "psalms"@, "salmo"@, "salmos"@] }
    } else if n == 20 {
        BookSpec { name_en: "Proverbs"@, name_pt: "Provérbios"@, abbrev_en: "Prov"@, abbrev_pt: "Pv"@, testament: Testament::Old, aliases: seq!["pr"@, "prov"@, "proverbios"@, "proverbs"@] }
    } else if n == 21 {
        BookSpec { name_en: "Ecclesiastes"@, name_pt: "Eclesiastes"@, abbrev_en: "Eccl"@, abbrev_pt: "Ec"@, testament: Testament::Old, aliases: seq!["ecc"@, "eccl"@, "eclesiastes"@, "ecclesiastes"@, "qo"@, "coelet"@] }
    } else if n == 22 {
        BookSpec { name_en: "Song of Solomon"@, name_pt: "Cânticos"@, abbrev_en: "Song"@, abbrev_pt: "Ct"@, testament: Testament::Old, aliases: seq!["song"@, "songofsongs"@, "songofsolomon"@, "canticles"@, "cantico"@, "canticos"@, "cantares"@, "canticodoscanticos"@] }
    } else if n == 23 {
        BookSpec { name_en: "Isaiah"@, name_pt: "Isaías"@, abbrev_en: "Isa"@, abbrev_pt: "Is"@, testament: Testament::Old, aliases: seq!["isa"@, "isaias"@, "isaiah"@] }
    } else if n == 24 {
        BookSpec { name_en: "Jeremiah"@, name_pt: "Jeremias"@, abbrev_en: "Jer"@, abbrev_pt: "Jr"@, testament: Testament::Old, aliases: seq!["jer"@, "jeremias"@, "jeremiah"@] }
    } else if n == 25 {
        BookSpec { name_en: "Lamentations"@, name_pt: "Lamentações"@, abbrev_en: "Lam"@, abbrev_pt: "Lm"@, testament: Testament::Old, aliases: seq!["lam"@, "lamentacoes"@, "lamentations"@] }
    } else if n == 26 {
        BookSpec { name_en: "Ezekiel"@, name_pt: "Ezequiel"@, abbrev_en: "Ezek"@, abbrev_pt: "Ez"@, testament: Testament::Old, aliases: seq!["eze"@, "ezek"@, "ezequiel"@, "ezekiel"@] }
    } else if n == 27 {
        BookSpec { name_en: "Daniel"@, name_pt: "Daniel"@, abbrev_en: "Dan"@, abbrev_pt: "Dn"@, testament: Testament::Old, aliases: seq!["dan"@, "daniel"@] }
    } else if n == 28 {
        BookSpec { name_en: "Hosea"@, name_pt: "Oseias"@, abbrev_en: "Hos"@, abbrev_pt: "Os"@, testament: Testament::Old, aliases: seq!["hos"@, "oseias"@, "hosea"@] }
    } else if n == 29 {
        BookSpec { name_en: "Joel"@, name_pt: "Joel"@, abbrev_en: "Joel"@, abbrev_pt: "Jl"@, testament: Testament::Old, aliases: seq!["joe"@, "joel"@] }
    } else if n == 30 {
        BookSpec { name_en: "Amos"@, name_pt: "Amós"@, abbrev_en: "Amos"@, abbrev_pt: "Am"@, testament: Testament::Old, aliases: seq!["amo"@, "amos"@] }
    } else if n == 31 {
        BookSpec { name_en: "Obadiah"@, name_pt: "Obadias"@, abbrev_en: "Obad"@, abbrev_pt: "Ob"@, testament: Testament::Old, aliases: seq!["oba"@, "obad"@, "obadias"@, "obadiah"@] }
    } else if n == 32 {
        BookSpec { name_en: "Jonah"@, name_pt: "Jonas"@, abbrev_en: "Jonah"@, abbrev_pt: "Jn"@, testament: Testament::Old, aliases: seq!["jon"@, "jonas"@, "jonah"@] }
    } else if n == 33 {
        BookSpec { name_en: "Micah"@, name_pt: "Miqueias"@, abbrev_en: "Mic"@, abbrev_pt: "Mq"@, testament: Testament::Old, aliases: seq!["mic"@, "miqueias"@, "micah"@] }
    } else if n == 34 {
        BookSpec { name_en: "Nahum"@, name_pt: "Naum"@, abbrev_en: "Nah"@, abbrev_pt: "Na"@, testament: Testament::Old, aliases: seq!["nah"@, "naum"@, "nahum"@] }
    } else if n == 35 {
        BookSpec { name_en: "Habakkuk"@, name_pt: "Habacuque"@, abbrev_en: "Hab"@, abbrev_pt: "Hc"@, testament: Testament::Old, aliases: seq!["hab"@, "habacuque"@, "habakkuk"@] }
    } else if n == 36 {
        BookSpec { name_en: "Zephaniah"@, name_pt: "Sofonias"@, abbrev_en: "Zeph"@, abbrev_pt: "Sf"@, testament: Testament::Old, aliases: seq!["zep"@, "zeph"@, "sofonias"@, "zephaniah"@] }
    } else if n == 37 {
        BookSpec { name_en: "Haggai"@, name_pt: "Ageu"@, abbrev_en: "Hag"@, abbrev_pt: "Ag"@, testament: Testament::Old, aliases: seq!["hag"@, "ageu"@, "haggai"@] }
    } else if n == 38 {
        BookSpec { name_en: "Zechariah"@, name_pt: "Zacarias"@, abbrev_en: "Zech"@, abbrev_pt: "Zc"@, testament: Testament::Old, aliases: seq!["zec"@, "zech"@, "zacarias"@, "zechariah"@] }
    } else if n == 39 {
        BookSpec { name_en: "Malachi"@, name_pt: "Malaquias"@, abbrev_en: "Mal"@, abbrev_pt: "Ml"@, testament: Testament::Old, aliases: seq!["mal"@, "malaquias"@, "malachi"@] }
    } else if n == 40 {
        BookSpec { name_en: "Matthew"@, name_pt: "Mateus"@, abbrev_en: "Matt"@, abbrev_pt: "Mt"@, testament: Testament::New, aliases: seq!["mat"@, "matt"@, "mateus"@, "matthew"@] }
    } else if n == 41 {
        BookSpec { name_en: "Mark"@, name_pt: "Marcos"@, abbrev_en: "Mark"@, abbrev_pt: "Mc"@, testament: Testament::New, aliases: seq!["mar"@, "mark"@, "marcos"@, "mr"@] }
    } else if n == 42 {
        BookSpec { name_en: "Luke"@, name_pt: "Lucas"@, abbrev_en: "Luke"@, abbrev_pt: "Lc"@, testament: Testament::New, aliases: seq!["luk"@, "luke"@, "lucas"@] }
    } else if n == 43 {
        BookSpec { name_en: "John"@, name_pt: "João"@, abbrev_en: "John"@, abbrev_pt: "Jo"@, testament: Testament::New, aliases: seq!["joh"@, "jhn"@, "john"@, "joao"@] }
    } else if n == 44 {
        BookSpec { name_en: "Acts"@, name_pt: "Atos"@, abbrev_en: "Acts"@, abbrev_pt: "At"@, testament: Testament::New, aliases: seq!["act"@, "acts"@, "atos"@] }
    } else if n == 45 {
        BookSpec { name_en: "Romans"@, name_pt: "Romanos"@, abbrev_en: "Rom"@, abbrev_pt: "Rm"@, testament: Testament::New, aliases: seq!["ro"@, "rom"@, "romanos"@, "romans"@] }
    } else if n == 46 {
        BookSpec { name_en: "1 Corinthians"@, name_pt: "1 Coríntios"@, abbrev_en: "1Cor"@, abbrev_pt: "1Co"@, testament: Testament::New, aliases: seq!["1co"@, "1cor"@, "1corinthians"@, "1corintios"@] }
    } else if n == 47 {
        BookSpec { name_en: "2 Corinthians"@, name_pt: "2 Coríntios"@, abbrev_en: "2Cor"@, abbrev_pt: "2Co"@, testament: Testament::New, aliases: seq!["2co"@, "2cor"@, "2corinthians"@, "2corintios"@] }
    } else if n == 48 {
        BookSpec { name_en: "Galatians"@, name_pt: "Gálatas"@, abbrev_en: "Gal"@, abbrev_pt: "Gl"@, testament: Testament::New, aliases: seq!["gal"@, "galatas"@, "galatians"@] }
    } else if n == 49 {
        BookSpec { name_en: "Ephesians"@, name_pt: "Efésios"@, abbrev_en: "Eph"@, abbrev_pt: "Ef"@, testament: Testament::New, aliases: seq!["eph"@, "efesios"@, "ephesians"@] }
    } else if n == 50 {
        BookSpec { name_en: "Philippians"@, name_pt: "Filipenses"@, abbrev_en: "Phil"@, abbrev_pt: "Fp"@, testament: Testament::New, aliases: seq!["php"@, "phil"@, "fil"@, "flp"@, "filipenses"@, "philippians"@] }
    } else if n == 51 {
        BookSpec { name_en: "Colossians"@, name_pt: "Colossenses"@, abbrev_en: "Col"@, abbrev_pt: "Cl"@, testament: Testament::New, aliases: seq!["col"@, "colossenses"@, "colossians"@] }
    } else if n == 52 {
        BookSpec { name_en: "1 Thessalonians"@, name_pt: "1 Tessalonicenses"@, abbrev_en: "1Thess"@, abbrev_pt: "1Ts"@, testament: Testament::New, aliases: seq!["1th"@, "1thess"@, "1thessalonians"@, "1tessalonicenses"@] }
    } else if n == 53 {
        BookSpec { name_en: "2 Thessalonians"@, name_pt: "2 Tessalonicenses"@, abbrev_en: "2Thess"@, abbrev_pt: "2Ts"@, testament: Testament::New, aliases: seq!["2th"@, "2thess"@, "2thessalonians"@, "2tessalonicenses"@] }
    } else if n == 54 {
        BookSpec { name_en: "1 Timothy"@, name_pt: "1 Timóteo"@, abbrev_en: "1Tim"@, abbrev_pt: "1Tm"@, testament: Testament::New, aliases: seq!["1ti"@, "1tim"@, "1timothy"@, "1timoteo"@] }
    } else if n == 55 {
        BookSpec { name_en: "2 Timothy"@, name_pt: "2 Timóteo"@, abbrev_en: "2Tim"@, abbrev_pt: "2Tm"@, testament: Testament::New, aliases: seq!["2ti"@, "2tim"@, "2timothy"@, "2timoteo"@] }
    } else if n == 56 {
        BookSpec { name_en: "Titus"@, name_pt: "Tito"@, abbrev_en: "Titus"@, abbrev_pt: "Tt"@, testament: Testament::New, aliases: seq!["tit"@, "tito"@, "titus"@] }
    } else if n == 57 {
        BookSpec { name_en: "Philemon"@, name_pt: "Filemom"@, abbrev_en: "Phlm"@, abbrev_pt: "Fm"@, testament: Testament::New, aliases: seq!["phm"@, "phlm"@, "philem"@, "filemom"@, "filemon"@] }
    } else if n == 58 {
        BookSpec { name_en: "Hebrews"@, name_pt: "Hebreus"@, abbrev_en: "Heb"@, abbrev_pt: "Hb"@, testament: Testament::New, aliases: seq!["heb"@, "hebreus"@, "hebrews"@] }
    } else if n == 59 {
        BookSpec { name_en: "James"@, name_pt: "Tiago"@, abbrev_en: "Jas"@, abbrev_pt: "Tg"@, testament: Testament::New, aliases: seq!["jas"@, "jm"@, "tiago"@, "james"@] }
    } else if n == 60 {
        BookSpec { name_en: "1 Peter"@, name_pt: "1 Pedro"@, abbrev_en: "1Pet"@, abbrev_pt: "1Pe"@, testament: Testament::New, aliases: seq!["1pe"@, "1pet"@, "1peter"@, "1pedro"@, "1pd"@] }
    } else if n == 61 {
        BookSpec { name_en: "2 Peter"@, name_pt: "2 Pedro"@, abbrev_en: "2Pet"@, abbrev_pt: "2Pe"@, testament: Testament::New, aliases: seq!["2pe"@, "2pet"@, "2peter"@, "2pedro"@, "2pd"@] }
    } else if n == 62 {
        BookSpec { name_en: "1 John"@, name_pt: "1 João"@, abbrev_en: "1John"@, abbrev_pt: "1Jo"@, testament: Testament::New, aliases: seq!["1jn"@, "1joh"@, "1john"@, "1joao"@] }
    } else if n == 63 {
        BookSpec { name_en: "2 John"@, name_pt: "2 João"@, abbrev_en: "2John"@, abbrev_pt: "2Jo"@, testament: Testament::New, aliases: seq!["2jn"@, "2joh"@, "2john"@, "2joao"@] }
    } else if n == 64 {
        BookSpec { name_en: "3 John"@, name_pt: "3 João"@, abbrev_en: "3John"@, abbrev_pt: "3Jo"@, testament: Testament::New, aliases: seq!["3jn"@, "3joh"@, "3john"@, "3joao"@] }
    } else if n == 65 {
        BookSpec { name_en: "Jude"@, name_pt: "Judas"@, abbrev_en: "Jude"@, abbrev_pt: "Jd"@, testament: Testament::New, aliases: seq!["jude"@, "judas"@] }
    } else {
        BookSpec { name_en: "Revelation"@, name_pt: "Apocalipse"@, abbrev_en: "Rev"@, abbrev_pt: "Ap"@, testament: Testament::New, aliases: seq!["re"@, "rev"@, "apc"@, "apoc"@, "apocalipse"@, "revelation"@, "revelations"@] }
    }
}

/// Metadata of book `number`, `None` outside `1..=66`.
pub fn book_info(number: u8) -> (r: Option<BookInfo>)
    ensures
        match r {
            Some(b) => valid_book(number as int) && b.number == number && book_view(b) == book_spec(number as int),
            None => !valid_book(number as int),
        },
{
    let b = match number {
        1 => BookInfo { number: 1, name_en: "Genesis", name_pt: "Gênesis", abbrev_en: "Gen", abbrev_pt: "Gn", testament: Testament::Old, aliases: &["ge", "gen", "genesis"] },
        2 => BookInfo { number: 2, name_en: "Exodus", name_pt: "Êxodo", abbrev_en: "Exod", abbrev_pt: "Êx", testament: Testament::Old, aliases: &["ex", "exo", "exod", "exodo"] },
        3 => BookInfo { number: 3, name_en: "Leviticus", name_pt: "Levítico", abbrev_en: "Lev", abbrev_pt: "Lv", testament: Testament::Old, aliases: &["levitico", "leviticus"] },
        4 => BookInfo { number: 4, name_en: "Numbers", name_pt: "Números", abbrev_en: "Num", abbrev_pt: "Nm", testament: Testament::Old, aliases: &["nu", "num", "numeros", "numbers"] },
        5 => BookInfo { number: 5, name_en: "Deuteronomy", name_pt: "Deuteronômio", abbrev_en: "Deut", abbrev_pt: "Dt", testament: Testament::Old, aliases: &["de", "deut", "deuteronomio", "deuteronomy"] },
        6 => BookInfo { number: 6, name_en: "Joshua", name_pt: "Josué", abbrev_en: "Josh", abbrev_pt: "Js", testament: Testament::Old, aliases: &["jos", "josh", "josue", "joshua"] },
        7 => BookInfo { number: 7, name_en: "Judges", name_pt: "Juízes", abbrev_en: "Judg", abbrev_pt: "Jz", testament: Testament::Old, aliases: &["judg", "juizes", "judges"] },
        8 => BookInfo { number: 8, name_en: "Ruth", name_pt: "Rute", abbrev_en: "Ruth", abbrev_pt: "Rt", testament: Testament::Old, aliases: &["ru", "rute", "ruth"] },
        9 => BookInfo { number: 9, name_en: "1 Samuel", name_pt: "1 Samuel", abbrev_en: "1Sam", abbrev_pt: "1Sm", testament: Testament::Old, aliases: &["1sa", "1sam", "1samuel"] },
        10 => BookInfo { number: 10, name_en: "2 Samuel", name_pt: "2 Samuel", abbrev_en: "2Sam", abbrev_pt: "2Sm", testament: Testament::Old, aliases: &["2sa", "2sam", "2samuel"] },
        11 => BookInfo { number: 11, name_en: "1 Kings", name_pt: "1 Reis", abbrev_en: "1Kgs", abbrev_pt: "1Rs", testament: Testament::Old, aliases: &["1ki", "1kgs", "1kings", "1reis"] },
        12 => BookInfo { number: 12, name_en: "2 Kings", name_pt: "2 Reis", abbrev_en: "2Kgs", abbrev_pt: "2Rs", testament: Testament::Old, aliases: &["2ki", "2kgs", "2kings", "2reis"] },
        13 => BookInfo { number: 13, name_en: "1 Chronicles", name_pt: "1 Crônicas", abbrev_en: "1Chr", abbrev_pt: "1Cr", testament: Testament::Old, aliases: &["1ch", "1chr", "1chronicles", "1cronicas"] },
        14 => BookInfo { number: 14, name_en: "2 Chronicles", name_pt: "2 Crônicas", abbrev_en: "2Chr", abbrev_pt: "2Cr", testament: Testament::Old, aliases: &["2ch", "2chr", "2chronicles", "2cronicas"] },
        15 => BookInfo { number: 15, name_en: "Ezra", name_pt: "Esdras", abbrev_en: "Ezra", abbrev_pt: "Ed", testament: Testament::Old, aliases: &["esd", "esdras", "ezra"] },
        16 => BookInfo { number: 16, name_en: "Nehemiah", name_pt: "Neemias", abbrev_en: "Neh", abbrev_pt: "Ne", testament: Testament::Old, aliases: &["neh", "neemias", "nehemiah"] },
        17 => BookInfo { number: 17, name_en: "Esther", name_pt: "Ester", abbrev_en: "Esth", abbrev_pt: "Et", testament: Testament::Old, aliases: &["est", "esth", "ester", "esther"] },
        18 => BookInfo { number: 18, name_en: "Job", name_pt: "Jó", abbrev_en: "Job", abbrev_pt: "Jó", testament: Testament::Old, aliases: &["job"] },
        19 => BookInfo { number: 19, name_en: "Psalms", name_pt: "Salmos", abbrev_en: "Ps", abbrev_pt: "Sl", testament: Testament::Old, aliases: &["psa", "psalm", "psalms", "salmo", "salmos"] },
        20 => BookInfo { number: 20, name_en: "Proverbs", name_pt: "Provérbios", abbrev_en: "Prov", abbrev_pt: "Pv", testament: Testament::Old, aliases: &["pr", "prov", "proverbios", "proverbs"] },
        21 => BookInfo { number: 21, name_en: "Ecclesiastes", name_pt: "Eclesiastes", abbrev_en: "Eccl", abbrev_pt: "Ec", testament: Testament::Old, aliases: &["ecc", "eccl", "eclesiastes", "ecclesiastes", "qo", "coelet"] },
        22 => BookInfo { number: 22, name_en: "Song of Solomon", name_pt: "Cânticos", abbrev_en: "Song", abbrev_pt: "Ct", testament: Testament::Old, aliases: &["song", "songofsongs", "songofsolomon", "canticles", "cantico", "canticos", "cantares", "canticodoscanticos"] },
        23 => BookInfo { number: 23, name_en: "Isaiah", name_pt: "Isaías", abbrev_en: "Isa", abbrev_pt: "Is", testament: Testament::Old, aliases: &["isa", "isaias", "isaiah"] },
        24 => BookInfo { number: 24, name_en: "Jeremiah", name_pt: "Jeremias", abbrev_en: "Jer", abbrev_pt: "Jr", testament: Testament::Old, aliases: &["jer", "jeremias", "jeremiah"] },
        25 => BookInfo { number: 25, name_en: "Lamentations", name_pt: "Lamentações", abbrev_en: "Lam", abbrev_pt: "Lm", testament: Testament::Old, aliases: &["lam", "lamentacoes", "lamentations"] },
        26 => BookInfo { number: 26, name_en: "Ezekiel", name_pt: "Ezequiel", abbrev_en: "Ezek", abbrev_pt: "Ez", testament: Testament::Old, aliases: &["eze", "ezek", "ezequiel", "ezekiel"] },
        27 => BookInfo { number: 27, name_en: "Daniel", name_pt: "Daniel", abbrev_en: "Dan", abbrev_pt: "Dn", testament: Testament::Old, aliases: &["dan", "daniel"] },
        28 => BookInfo { number: 28, name_en: "Hosea", name_pt: "Oseias", abbrev_en: "Hos", abbrev_pt: "Os", testament: Testament::Old, aliases: &["hos", "oseias", "hosea"] },
        29 => BookInfo { number: 29, name_en: "Joel", name_pt: "Joel", abbrev_en: "Joel", abbrev_pt: "Jl", testament: Testament::Old, aliases: &["joe", "joel"] },
        30 => BookInfo { number: 30, name_en: "Amos", name_pt: "Amós", abbrev_en: "Amos", abbrev_pt: "Am", testament: Testament::Old, aliases: &["amo", "amos"] },
        31 => BookInfo { number: 31, name_en: "Obadiah", name_pt: "Obadias", abbrev_en: "Obad", abbrev_pt: "Ob", testament: Testament::Old, aliases: &["oba", "obad", "obadias", "obadiah"] },
        32 => BookInfo { number: 32, name_en: "Jonah", name_pt: "Jonas", abbrev_en: "Jonah", abbrev_pt: "Jn", testament: Testament::Old, aliases: &["jon", "jonas", "jonah"] },
        33 => BookInfo { number: 33, name_en: "Micah", name_pt: "Miqueias", abbrev_en: "Mic", abbrev_pt: "Mq", testament: Testament::Old, aliases: &["mic", "miqueias", "micah"] },
        34 => BookInfo { number: 34, name_en: "Nahum", name_pt: "Naum", abbrev_en: "Nah", abbrev_pt: "Na", testament: Testament::Old, aliases: &["nah", "naum", "nahum"] },
        35 => BookInfo { number: 35, name_en: "Habakkuk", name_pt: "Habacuque", abbrev_en: "Hab", abbrev_pt: "Hc", testament: Testament::Old, aliases: &["hab", "habacuque", "habakkuk"] },
        36 => BookInfo { number: 36, name_en: "Zephaniah", name_pt: "Sofonias", abbrev_en: "Zeph", abbrev_pt: "Sf", testament: Testament::Old, aliases: &["zep", "zeph", "sofonias", "zephaniah"] },
        37 => BookInfo { number: 37, name_en: "Haggai", name_pt: "Ageu", abbrev_en: "Hag", abbrev_pt: "Ag", testament: Testament::Old, aliases: &["hag", "ageu", "haggai"] },
        38 => BookInfo { number: 38, name_en: "Zechariah", name_pt: "Zacarias", abbrev_en: "Zech", abbrev_pt: "Zc", testament: Testament::Old, aliases: &["zec", "zech", "zacarias", "zechariah"] },
        39 => BookInfo { number: 39, name_en: "Malachi", name_pt: "Malaquias", abbrev_en: "Mal", abbrev_pt: "Ml", testament: Testament::Old, aliases: &["mal", "malaquias", "malachi"] },
        40 => BookInfo { number: 40, name_en: "Matthew", name_pt: "Mateus", abbrev_en: "Matt", abbrev_pt: "Mt", testament: Testament::New, aliases: &["mat", "matt", "mateus", "matthew"] },
        41 => BookInfo { number: 41, name_en: "Mark", name_pt: "Marcos", abbrev_en: "Mark", abbrev_pt: "Mc", testament: Testament::New, aliases: &["mar", "mark", "marcos", "mr"] },
        42 => BookInfo { number: 42, name_en: "Luke", name_pt: "Lucas", abbrev_en: "Luke", abbrev_pt: "Lc", testament: Testament::New, aliases: &["luk", "luke", "lucas"] },
        43 => BookInfo { number: 43, name_en: "John", name_pt: "João", abbrev_en: "John", abbrev_pt: "Jo", testament: Testament::New, aliases: &["joh", "jhn", "john", "joao"] },
        44 => BookInfo { number: 44, name_en: "Acts", name_pt: "Atos", abbrev_en: "Acts", abbrev_pt: "At", testament: Testament::New, aliases: &["act", "acts", "atos"] },
        45 => BookInfo { number: 45, name_en: "Romans", name_pt: "Romanos", abbrev_en: "Rom", abbrev_pt: "Rm", testament: Testament::New, aliases: &["ro", "rom", "romanos", "romans"] },
        46 => BookInfo { number: 46, name_en: "1 Corinthians", name_pt: "1 Coríntios", abbrev_en: "1Cor", abbrev_pt: "1Co", testament: Testament::New, aliases: &["1co", "1cor", "1corinthians", "1corintios"] },
        47 => BookInfo { number: 47, name_en: "2 Corinthians", name_pt: "2 Coríntios", abbrev_en: "2Cor", abbrev_pt: "2Co", testament: Testament::New, aliases: &["2co", "2cor", "2corinthians", "2corintios"] },
        48 => BookInfo { number: 48, name_en: "Galatians", name_pt: "Gálatas", abbrev_en: "Gal", abbrev_pt: "Gl", testament: Testament::New, aliases: &["gal", "galatas", "galatians"] },
        49 => BookInfo { number: 49, name_en: "Ephesians", name_pt: "Efésios", abbrev_en: "Eph", abbrev_pt: "Ef", testament: Testament::New, aliases: &["eph", "efesios", "ephesians"] },
        50 => BookInfo { number: 50, name_en: "Philippians", name_pt: "Filipenses", abbrev_en: "Phil", abbrev_pt: "Fp", testament: Testament::New, aliases: &["php", "phil", "fil", "flp", "filipenses", "philippians"] },
        51 => BookInfo { number: 51, name_en: "Colossians", name_pt: "Colossenses", abbrev_en: "Col", abbrev_pt: "Cl", testament: Testament::New, aliases: &["col", "colossenses", "colossians"] },
        52 => BookInfo { number: 52, name_en: "1 Thessalonians", name_pt: "1 Tessalonicenses", abbrev_en: "1Thess", abbrev_pt: "1Ts", testament: Testament::New, aliases: &["1th", "1thess", "1thessalonians", "1tessalonicenses"] },
        53 => BookInfo { number: 53, name_en: "2 Thessalonians", name_pt: "2 Tessalonicenses", abbrev_en: "2Thess", abbrev_pt: "2Ts", testament: Testament::New, aliases: &["2th", "2thess", "2thessalonians", "2tessalonicenses"] },
        54 => BookInfo { number: 54, name_en: "1 Timothy", name_pt: "1 Timóteo", abbrev_en: "1Tim", abbrev_pt: "1Tm", testament: Testament::New, aliases: &["1ti", "1tim", "1timothy", "1timoteo"] },
        55 => BookInfo { number: 55, name_en: "2 Timothy", name_pt: "2 Timóteo", abbrev_en: "2Tim", abbrev_pt: "2Tm", testament: Testament::New, aliases: &["2ti", "2tim", "2timothy", "2timoteo"] },
        56 => BookInfo { number: 56, name_en: "Titus", name_pt: "Tito", abbrev_en: "Titus", abbrev_pt: "Tt", testament: Testament::New, aliases: &["tit", "tito", "titus"] },
        57 => BookInfo { number: 57, name_en: "Philemon", name_pt: "Filemom", abbrev_en: "Phlm", abbrev_pt: "Fm", testament: Testament::New, aliases: &["phm", "phlm", "philem", "filemom", "filemon"] },
        58 => BookInfo { number: 58, name_en: "Hebrews", name_pt: "Hebreus", abbrev_en: "Heb", abbrev_pt: "Hb", testament: Testament::New, aliases: &["heb", "hebreus", "hebrews"] },
        59 => BookInfo { number: 59, name_en: "James", name_pt: "Tiago", abbrev_en: "Jas", abbrev_pt: "Tg", testament: Testament::New, aliases: &["jas", "jm", "tiago", "james"] },
        60 => BookInfo { number: 60, name_en: "1 Peter", name_pt: "1 Pedro", abbrev_en: "1Pet", abbrev_pt: "1Pe", testament: Testament::New, aliases: &["1pe", "1pet", "1peter", "1pedro", "1pd"] },
        61 => BookInfo { number: 61, name_en: "2 Peter", name_pt: "2 Pedro", abbrev_en: "2Pet", abbrev_pt: "2Pe", testament: Testament::New, aliases: &["2pe", "2pet", "2peter", "2pedro", "2pd"] },
        62 => BookInfo { number: 62, name_en: "1 John", name_pt: "1 João", abbrev_en: "1John", abbrev_pt: "1Jo", testament: Testament::New, aliases: &["1jn", "1joh", "1john", "1joao"] },
        63 => BookInfo { number: 63, name_en: "2 John", name_pt: "2 João", abbrev_en: "2John", abbrev_pt: "2Jo", testament: Testament::New, aliases: &["2jn", "2joh", "2john", "2joao"] },
        64 => BookInfo { number: 64, name_en: "3 John", name_pt: "3 João", abbrev_en: "3John", abbrev_pt: "3Jo", testament: Testament::New, aliases: &["3jn", "3joh", "3john", "3joao"] },
        65 => BookInfo { number: 65, name_en: "Jude", name_pt: "Judas", abbrev_en: "Jude", abbrev_pt: "Jd", testament: Testament::New, aliases: &["jude", "judas"] },
        66 => BookInfo { number: 66, name_en: "Revelation", name_pt: "Apocalipse", abbrev_en: "Rev", abbrev_pt: "Ap", testament: Testament::New, aliases: &["re", "rev", "apc", "apoc", "apocalipse", "revelation", "revelations"] },
        _ => return None,
    };
    assert(book_view(b).aliases =~= book_spec(number as int).aliases);
    Some(b)
}

/// The 66 book entries, in canonical order.
pub fn books() -> (r: Vec<BookInfo>)
    ensures
        r.len() == 66,
        forall|i: int|
            0 <= i < 66 ==> (#[trigger] r@[i]).number == i + 1 && book_view(r@[i]) == book_spec(
                i + 1,
            ),
{
    let mut r: Vec<BookInfo> = Vec::new();
    let mut n: u8 = 1;
    while n <= 66
        invariant
            1 <= n <= 67,
            r.len() == n - 1,
            forall|i: int|
                0 <= i < n - 1 ==> (#[trigger] r@[i]).number == i + 1 && book_view(r@[i])
                    == book_spec(i + 1),
        decreases 67 - n,
    {
        r.push(book_info(n).unwrap());
        n = n + 1;
    }
    r
}

/// Number of chapters of each book, in canonical order (1189 in total).
pub open spec fn chapter_count(n: int) -> u16 {
    if n == 1 { 50
    } else if n == 2 { 40
    } else if n == 3 { 27
    } else if n == 4 { 36
    } else if n == 5 { 34
    } else if n == 6 { 24
    } else if n == 7 { 21
    } else if n == 8 { 4
    } else if n == 9 { 31
    } else if n == 10 { 24
    } else if n == 11 { 22
    } else if n == 12 { 25
    } else if n == 13 { 29
    } else if n == 14 { 36
    } else if n == 15 { 10
    } else if n == 16 { 13
    } else if n == 17 { 10
    } else if n == 18 { 42
    } else if n == 19 { 150
    } else if n == 20 { 31
    } else if n == 21 { 12
    } else if n == 22 { 8
    } else if n == 23 { 66
    } else if n == 24 { 52
    } else if n == 25 { 5
    } else if n == 26 { 48
    } else if n == 27 { 12
    } else if n == 28 { 14
    } else if n == 29 { 3
    } else if n == 30 { 9
    } else if n == 31 { 1
    } else if n == 32 { 4
    } else if n == 33 { 7
    } else if n == 34 { 3
    } else if n == 35 { 3
    } else if n == 36 { 3
    } else if n == 37 { 2
    } else if n == 38 { 14
    } else if n == 39 { 4
    } else if n == 40 { 28
    } else if n == 41 { 16
    } else if n == 42 { 24
    } else if n == 43 { 21
    } else if n == 44 { 28
    } else if n == 45 { 16
    } else if n == 46 { 16
    } else if n == 47 { 13
    } else if n == 48 { 6
    } else if n == 49 { 6
    } else if n == 50 { 4
    } else if n == 51 { 4
    } else if n == 52 { 5
    } else if n == 53 { 3
    } else if n == 54 { 6
    } else if n == 55 { 4
    } else if n == 56 { 3
    } else if n == 57 { 1
    } else if n == 58 { 13
    } else if n == 59 { 5
    } else if n == 60 { 5
    } else if n == 61 { 3
    } else if n == 62 { 5
    } else if n == 63 { 1
    } else if n == 64 { 1
    } else if n == 65 { 1
    } else if n == 66 { 22
    } else { 0 }
}

/// Canonical number of chapters of a book (`0` outside `1..=66`).
pub fn chapters_in_book(number: u8) -> (r: u16)
    ensures
        r == chapter_count(number as int),
{
    match number {
        1 => 50,
        2 => 40,
        3 => 27,
        4 => 36,
        5 => 34,
        6 => 24,
        7 => 21,
        8 => 4,
        9 => 31,
        10 => 24,
        11 => 22,
        12 => 25,
        13 => 29,
        14 => 36,
        15 => 10,
        16 => 13,
        17 => 10,
        18 => 42,
        19 => 150,
        20 => 31,
        21 => 12,
        22 => 8,
        23 => 66,
        24 => 52,
        25 => 5,
        26 => 48,
        27 => 12,
        28 => 14,
        29 => 3,
        30 => 9,
        31 => 1,
        32 => 4,
        33 => 7,
        34 => 3,
        35 => 3,
        36 => 3,
        37 => 2,
        38 => 14,
        39 => 4,
        40 => 28,
        41 => 16,
        42 => 24,
        43 => 21,
        44 => 28,
        45 => 16,
        46 => 16,
        47 => 13,
        48 => 6,
        49 => 6,
        50 => 4,
        51 => 4,
        52 => 5,
        53 => 3,
        54 => 6,
        55 => 4,
        56 => 3,
        57 => 1,
        58 => 13,
        59 => 5,
        60 => 5,
        61 => 3,
        62 => 5,
        63 => 1,
        64 => 1,
        65 => 1,
        66 => 22,
        _ => 0,
    }
}

} // verus!
