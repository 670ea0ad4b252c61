//! The languages a query can be made in, identified by their ISO 639-3 codes
//! (the set that `whatlang` knows).
use vstd::prelude::*;

use crate::text::str_eq;

verus! {

/// A language, named by its ISO 639-3 code.
#[derive(Clone, Copy, Debug, PartialEq, Eq, Hash, Structural)]
pub enum Lang {
    Epo,
    Eng,
    Rus,
    Cmn,
    Spa,
    Por,
    Ita,
    Ben,
    Fra,
    Deu,
    Ukr,
    Kat,
    Ara,
    Hin,
    Jpn,
    Heb,
    Yid,
    Pol,
    Amh,
    Jav,
    Kor,
    Nob,
    Dan,
    Swe,
    Fin,
    Tur,
    Nld,
    Hun,
    Ces,
    Ell,
    Bul,
    Bel,
    Mar,
    Kan,
    Ron,
    Slv,
    Hrv,
    Srp,
    Mkd,
    Lit,
    Lav,
    Est,
    Tam,
    Vie,
    Urd,
    Tha,
    Guj,
    Uzb,
    Pan,
    Aze,
    Ind,
    Tel,
    Pes,
    Mal,
    Ori,
    Mya,
    Nep,
    Sin,
    Khm,
    Tuk,
    Aka,
    Zul,
    Sna,
    Afr,
    Lat,
    Slk,
    Cat,
    Tgl,
    Hye,
    Cym,
}

/// The ISO 639-3 code of a language.
pub open spec fn lang_code(lang: Lang) -> Seq<char> {
    match lang {
        Lang::Epo => "epo"@,
        Lang::Eng => "eng"@,
        Lang::Rus => "rus"@,
        Lang::Cmn => "cmn"@,
        Lang::Spa => "spa"@,
        Lang::Por => "por"@,
        Lang::Ita => "ita"@,
        Lang::Ben => "ben"@,
        Lang::Fra => "fra"@,
        Lang::Deu => "deu"@,
        Lang::Ukr => "ukr"@,
        Lang::Kat => "kat"@,
        Lang::Ara => "ara"@,
        Lang::Hin => "hin"@,
        Lang::Jpn => "jpn"@,
        Lang::Heb => "heb"@,
        Lang::Yid => "yid"@,
        Lang::Pol => "pol"@,
        Lang::Amh => "amh"@,
        Lang::Jav => "jav"@,
        Lang::Kor => "kor"@,
        Lang::Nob => "nob"@,
        Lang::Dan => "dan"@,
        Lang::Swe => "swe"@,
        Lang::Fin => "fin"@,
        Lang::Tur => "tur"@,
        Lang::Nld => "nld"@,
        Lang::Hun => "hun"@,
        Lang::Ces => "ces"@,
        Lang::Ell => "ell"@,
        Lang::Bul => "bul"@,
        Lang::Bel => "bel"@,
        Lang::Mar => "mar"@,
        Lang::Kan => "kan"@,
        Lang::Ron => "ron"@,
        Lang::Slv => "slv"@,
        Lang::Hrv => "hrv"@,
        Lang::Srp => "srp"@,
        Lang::Mkd => "mkd"@,
        Lang::Lit => "lit"@,
        Lang::Lav => "lav"@,
        Lang::Est => "est"@,
        Lang::Tam => "tam"@,
        Lang::Vie => "vie"@,
        Lang::Urd => "urd"@,
        Lang::Tha => "tha"@,
        Lang::Guj => "guj"@,
        Lang::Uzb => "uzb"@,
        Lang::Pan => "pan"@,
        Lang::Aze => "aze"@,
        Lang::Ind => "ind"@,
        Lang::Tel => "tel"@,
        Lang::Pes => "pes"@,
        Lang::Mal => "mal"@,
        Lang::Ori => "ori"@,
        Lang::Mya => "mya"@,
        Lang::Nep => "nep"@,
        Lang::Sin => "sin"@,
        Lang::Khm => "khm"@,
        Lang::Tuk => "tuk"@,
        Lang::Aka => "aka"@,
        Lang::Zul => "zul"@,
        Lang::Sna => "sna"@,
        Lang::Afr => "afr"@,
        Lang::Lat => "lat"@,
        Lang::Slk => "slk"@,
        Lang::Cat => "cat"@,
        Lang::Tgl => "tgl"@,
        Lang::Hye => "hye"@,
        Lang::Cym => "cym"@,
    }
}

/// The language whose code is `code`, if any.
pub open spec fn lang_of_code(code: Seq<char>) -> Option<Lang> {
    if code == "epo"@ {
        Some(Lang::Epo)
    } else if code == "eng"@ {
        Some(Lang::Eng)
    } else if code == "rus"@ {
        Some(Lang::Rus)
    } else if code == "cmn"@ {
        Some(Lang::Cmn)
    } else if code == "spa"@ {
        Some(Lang::Spa)
    } else if code == "por"@ {
        Some(Lang::Por)
    } else if code == "ita"@ {
        Some(Lang::Ita)
    } else if code == "ben"@ {
        Some(Lang::Ben)
    } else if code == "fra"@ {
        Some(Lang::Fra)
    } else if code == "deu"@ {
        Some(Lang::Deu)
    } else if code == "ukr"@ {
        Some(Lang::Ukr)
    } else if code == "kat"@ {
        Some(Lang::Kat)
    } else if code == "ara"@ {
        Some(Lang::Ara)
    } else if code == "hin"@ {
        Some(Lang::Hin)
    } else if code == "jpn"@ {
        Some(Lang::Jpn)
    } else if code == "heb"@ {
        Some(Lang::Heb)
    } else if code == "yid"@ {
        Some(Lang::Yid)
    } else if code == "pol"@ {
        Some(Lang::Pol)
    } else if code == "amh"@ {
        Some(Lang::Amh)
    } else if code == "jav"@ {
        Some(Lang::Jav)
    } else if code == "kor"@ {
        Some(Lang::Kor)
    } else if code == "nob"@ {
        Some(Lang::Nob)
    } else if code == "dan"@ {
        Some(Lang::Dan)
    } else if code == "swe"@ {
        Some(Lang::Swe)
    } else if code == "fin"@ {
        Some(Lang::Fin)
    } else if code == "tur"@ {
        Some(Lang::Tur)
    } else if code == "nld"@ {
        Some(Lang::Nld)
    } else if code == "hun"@ {
        Some(Lang::Hun)
    } else if code == "ces"@ {
        Some(Lang::Ces)
    } else if code == "ell"@ {
        Some(Lang::Ell)
    } else if code == "bul"@ {
        Some(Lang::Bul)
    } else if code == "bel"@ {
        Some(Lang::Bel)
    } else if code == "mar"@ {
        Some(Lang::Mar)
    } else if code == "kan"@ {
        Some(Lang::Kan)
    } else if code == "ron"@ {
        Some(Lang::Ron)
    } else if code == "slv"@ {
        Some(Lang::Slv)
    } else if code == "hrv"@ {
        Some(Lang::Hrv)
    } else if code == "srp"@ {
        Some(Lang::Srp)
    } else if code == "mkd"@ {
        Some(Lang::Mkd)
    } else if code == "lit"@ {
        Some(Lang::Lit)
    } else if code == "lav"@ {
        Some(Lang::Lav)
    } else if code == "est"@ {
        Some(Lang::Est)
    } else if code == "tam"@ {
        Some(Lang::Tam)
    } else if code == "vie"@ {
        Some(Lang::Vie)
    } else if code == "urd"@ {
        Some(Lang::Urd)
    } else if code == "tha"@ {
        Some(Lang::Tha)
    } else if code == "guj"@ {
        Some(Lang::Guj)
    } else if code == "uzb"@ {
        Some(Lang::Uzb)
    } else if code == "pan"@ {
        Some(Lang::Pan)
    } else if code == "aze"@ {
        Some(Lang::Aze)
    } else if code == "ind"@ {
        Some(Lang::Ind)
    } else if code == "tel"@ {
        Some(Lang::Tel)
    } else if code == "pes"@ {
        Some(Lang::Pes)
    } else if code == "mal"@ {
        Some(Lang::Mal)
    } else if code == "ori"@ {
        Some(Lang::Ori)
    } else if code == "mya"@ {
        Some(Lang::Mya)
    } else if code == "nep"@ {
        Some(Lang::Nep)
    } else if code == "sin"@ {
        Some(Lang::Sin)
    } else if code == "khm"@ {
        Some(Lang::Khm)
    } else if code == "tuk"@ {
        Some(Lang::Tuk)
    } else if code == "aka"@ {
        Some(Lang::Aka)
    } else if code == "zul"@ {
        Some(Lang::Zul)
    } else if code == "sna"@ {
        Some(Lang::Sna)
    } else if code == "afr"@ {
        Some(Lang::Afr)
    } else if code == "lat"@ {
        Some(Lang::Lat)
    } else if code == "slk"@ {
        Some(Lang::Slk)
    } else if code == "cat"@ {
        Some(Lang::Cat)
    } else if code == "tgl"@ {
        Some(Lang::Tgl)
    } else if code == "hye"@ {
        Some(Lang::Hye)
    } else if code == "cym"@ {
        Some(Lang::Cym)
    } else {
        None
    }
}

/// Whether `code` is the code of some language.
pub open spec fn is_lang_code(code: Seq<char>) -> bool {
    exists|lang: Lang| lang_code(lang) == code
}

impl Lang {
    /// The ISO 639-3 code of this language.
    pub fn code(&self) -> (r: &'static str)
        ensures
            r@ == lang_code(*self),
            is_lang_code(r@),
    {
        let r = match self {
            Lang::Epo => "epo",
            Lang::Eng => "eng",
            Lang::Rus => "rus",
            Lang::Cmn => "cmn",
            Lang::Spa => "spa",
            Lang::Por => "por",
            Lang::Ita => "ita",
            Lang::Ben => "ben",
            Lang::Fra => "fra",
            Lang::Deu => "deu",
            Lang::Ukr => "ukr",
            Lang::Kat => "kat",
            Lang::Ara => "ara",
            Lang::Hin => "hin",
            Lang::Jpn => "jpn",
            Lang::Heb => "heb",
            Lang::Yid => "yid",
            Lang::Pol => "pol",
            Lang::Amh => "amh",
            Lang::Jav => "jav",
            Lang::Kor => "kor",
            Lang::Nob => "nob",
            Lang::Dan => "dan",
            Lang::Swe => "swe",
            Lang::Fin => "fin",
            Lang::Tur => "tur",
            Lang::Nld => "nld",
            Lang::Hun => "hun",
            Lang::Ces => "ces",
            Lang::Ell => "ell",
            Lang::Bul => "bul",
            Lang::Bel => "bel",
            Lang::Mar => "mar",
            Lang::Kan => "kan",
            Lang::Ron => "ron",
            Lang::Slv => "slv",
            Lang::Hrv => "hrv",
            Lang::Srp => "srp",
            Lang::Mkd => "mkd",
            Lang::Lit => "lit",
            Lang::Lav => "lav",
            Lang::Est => "est",
            Lang::Tam => "tam",
            Lang::Vie => "vie",
            Lang::Urd => "urd",
            Lang::Tha => "tha",
            Lang::Guj => "guj",
            Lang::Uzb => "uzb",
            Lang::Pan => "pan",
            Lang::Aze => "aze",
            Lang::Ind => "ind",
            Lang::Tel => "tel",
            Lang::Pes => "pes",
            Lang::Mal => "mal",
            Lang::Ori => "ori",
            Lang::Mya => "mya",
            Lang::Nep => "nep",
            Lang::Sin => "sin",
            Lang::Khm => "khm",
            Lang::Tuk => "tuk",
            Lang::Aka => "aka",
            Lang::Zul => "zul",
            Lang::Sna => "sna",
            Lang::Afr => "afr",
            Lang::Lat => "lat",
            Lang::Slk => "slk",
            Lang::Cat => "cat",
            Lang::Tgl => "tgl",
            Lang::Hye => "hye",
            Lang::Cym => "cym",
        };
        assert(lang_code(*self) == r@);
        r
    }

    /// The language whose ISO 639-3 code is `code`.
    pub fn from_code(code: &str) -> (r: Option<Lang>)
        ensures
            r == lang_of_code(code@),
    {
        if str_eq(code, "epo") {
            Some(Lang::Epo)
        } else if str_eq(code, "eng") {
            Some(Lang::Eng)
        } else if str_eq(code, "rus") {
            Some(Lang::Rus)
        } else if str_eq(code, "cmn") {
            Some(Lang::Cmn)
        } else if str_eq(code, "spa") {
            Some(Lang::Spa)
        } else if str_eq(code, "por") {
            Some(Lang::Por)
        } else if str_eq(code, "ita") {
            Some(Lang::Ita)
        } else if str_eq(code, "ben") {
            Some(Lang::Ben)
        } else if str_eq(code, "fra") {
            Some(Lang::Fra)
        } else if str_eq(code, "deu") {
            Some(Lang::Deu)
        } else if str_eq(code, "ukr") {
            Some(Lang::Ukr)
        } else if str_eq(code, "kat") {
            Some(Lang::Kat)
        } else if str_eq(code, "ara") {
            Some(Lang::Ara)
        } else if str_eq(code, "hin") {
            Some(Lang::Hin)
        } else if str_eq(code, "jpn") {
            Some(Lang::Jpn)
        } else if str_eq(code, "heb") {
            Some(Lang::Heb)
        } else if str_eq(code, "yid") {
            Some(Lang::Yid)
        } else if str_eq(code, "pol") {
            Some(Lang::Pol)
        } else if str_eq(code, "amh") {
            Some(Lang::Amh)
        } else if str_eq(code, "jav") {
            Some(Lang::Jav)
        } else if str_eq(code, "kor") {
            Some(Lang::Kor)
        } else if str_eq(code, "nob") {
            Some(Lang::Nob)
        } else if str_eq(code, "dan") {
            Some(Lang::Dan)
        } else if str_eq(code, "swe") {
            Some(Lang::Swe)
        } else if str_eq(code, "fin") {
            Some(Lang::Fin)
        } else if str_eq(code, "tur") {
            Some(Lang::Tur)
        } else if str_eq(code, "nld") {
            Some(Lang::Nld)
        } else if str_eq(code, "hun") {
            Some(Lang::Hun)
        } else if str_eq(code, "ces") {
            Some(Lang::Ces)
        } else if str_eq(code, "ell") {
            Some(Lang::Ell)
        } else if str_eq(code, "bul") {
            Some(Lang::Bul)
        } else if str_eq(code, "bel") {
            Some(Lang::Bel)
        } else if str_eq(code, "mar") {
            Some(Lang::Mar)
        } else if str_eq(code, "kan") {
            Some(Lang::Kan)
        } else if str_eq(code, "ron") {
            Some(Lang::Ron)
        } else if str_eq(code, "slv") {
            Some(Lang::Slv)
        } else if str_eq(code, "hrv") {
            Some(Lang::Hrv)
        } else if str_eq(code, "srp") {
            Some(Lang::Srp)
        } else if str_eq(code, "mkd") {
            Some(Lang::Mkd)
        } else if str_eq(code, "lit") {
            Some(Lang::Lit)
        } else if str_eq(code, "lav") {
            Some(Lang::Lav)
        } else if str_eq(code, "est") {
            Some(Lang::Est)
        } else if str_eq(code, "tam") {
            Some(Lang::Tam)
        } else if str_eq(code, "vie") {
            Some(Lang::Vie)
        } else if str_eq(code, "urd") {
            Some(Lang::Urd)
        } else if str_eq(code, "tha") {
            Some(Lang::Tha)
        } else if str_eq(code, "guj") {
            Some(Lang::Guj)
        } else if str_eq(code, "uzb") {
            Some(Lang::Uzb)
        } else if str_eq(code, "pan") {
            Some(Lang::Pan)
        } else if str_eq(code, "aze") {
            Some(Lang::Aze)
        } else if str_eq(code, "ind") {
            Some(Lang::Ind)
        } else if str_eq(code, "tel") {
            Some(Lang::Tel)
        } else if str_eq(code, "pes") {
            Some(Lang::Pes)
        } else if str_eq(code, "mal") {
            Some(Lang::Mal)
        } else if str_eq(code, "ori") {
            Some(Lang::Ori)
        } else if str_eq(code, "mya") {
            Some(Lang::Mya)
        } else if str_eq(code, "nep") {
            Some(Lang::Nep)
        } else if str_eq(code, "sin") {
            Some(Lang::Sin)
        } else if str_eq(code, "khm") {
            Some(Lang::Khm)
        } else if str_eq(code, "tuk") {
            Some(Lang::Tuk)
        } else if str_eq(code, "aka") {
            Some(Lang::Aka)
        } else if str_eq(code, "zul") {
            Some(Lang::Zul)
        } else if str_eq(code, "sna") {
            Some(Lang::Sna)
        } else if str_eq(code, "afr") {
            Some(Lang::Afr)
        } else if str_eq(code, "lat") {
            Some(Lang::Lat)
        } else if str_eq(code, "slk") {
            Some(Lang::Slk)
        } else if str_eq(code, "cat") {
            Some(Lang::Cat)
        } else if str_eq(code, "tgl") {
            Some(Lang::Tgl)
        } else if str_eq(code, "hye") {
            Some(Lang::Hye)
        } else if str_eq(code, "cym") {
            Some(Lang::Cym)
        } else {
            None
        }
    }
}

/// Every language is found again by its code.
#[verifier::rlimit(100)]
pub proof fn lemma_code_round_trip(lang: Lang)
    ensures
        lang_of_code(lang_code(lang)) == Some(lang),
{
    reveal_strlit("epo");
    reveal_strlit("eng");
    reveal_strlit("rus");
    reveal_strlit("cmn");
    reveal_strlit("spa");
    reveal_strlit("por");
    reveal_strlit("ita");
    reveal_strlit("ben");
    reveal_strlit("fra");
    reveal_strlit("deu");
    reveal_strlit("ukr");
    reveal_strlit("kat");
    reveal_strlit("ara");
    reveal_strlit("hin");
    reveal_strlit("jpn");
    reveal_strlit("heb");
    reveal_strlit("yid");
    reveal_strlit("pol");
    reveal_strlit("amh");
    reveal_strlit("jav");
    reveal_strlit("kor");
    reveal_strlit("nob");
    reveal_strlit("dan");
    reveal_strlit("swe");
    reveal_strlit("fin");
    reveal_strlit("tur");
    reveal_strlit("nld");
    reveal_strlit("hun");
    reveal_strlit("ces");
    reveal_strlit("ell");
    reveal_strlit("bul");
    reveal_strlit("bel");
    reveal_strlit("mar");
    reveal_strlit("kan");
    reveal_strlit("ron");
    reveal_strlit("slv");
    reveal_strlit("hrv");
    reveal_strlit("srp");
    reveal_strlit("mkd");
    reveal_strlit("lit");
    reveal_strlit("lav");
    reveal_strlit("est");
    reveal_strlit("tam");
    reveal_strlit("vie");
    reveal_strlit("urd");
    reveal_strlit("tha");
    reveal_strlit("guj");
    reveal_strlit("uzb");
    reveal_strlit("pan");
    reveal_strlit("aze");
    reveal_strlit("ind");
    reveal_strlit("tel");
    reveal_strlit("pes");
    reveal_strlit("mal");
    reveal_strlit("ori");
    reveal_strlit("mya");
    reveal_strlit("nep");
    reveal_strlit("sin");
    reveal_strlit("khm");
    reveal_strlit("tuk");
    reveal_strlit("aka");
    reveal_strlit("zul");
    reveal_strlit("sna");
    reveal_strlit("afr");
    reveal_strlit("lat");
    reveal_strlit("slk");
    reveal_strlit("cat");
    reveal_strlit("tgl");
    reveal_strlit("hye");
    reveal_strlit("cym");
    assert("epo"@ =~= seq!['e', 'p', 'o']);
    assert("eng"@ =~= seq!['e', 'n', 'g']);
    assert("rus"@ =~= seq!['r', 'u', 's']);
    assert("cmn"@ =~= seq!['c', 'm', 'n']);
    assert("spa"@ =~= seq!['s', 'p', 'a']);
    assert("por"@ =~= seq!['p', 'o', 'r']);
    assert("ita"@ =~= seq!['i', 't', 'a']);
    assert("ben"@ =~= seq!['b', 'e', 'n']);
    assert("fra"@ =~= seq!['f', 'r', 'a']);
    assert("deu"@ =~= seq!['d', 'e', 'u']);
    assert("ukr"@ =~= seq!['u', 'k', 'r']);
    assert("kat"@ =~= seq!['k', 'a', 't']);
    assert("ara"@ =~= seq!['a', 'r', 'a']);
    assert("hin"@ =~= seq!['h', 'i', 'n']);
    assert("jpn"@ =~= seq!['j', 'p', 'n']);
    assert("heb"@ =~= seq!['h', 'e', 'b']);
    assert("yid"@ =~= seq!['y', 'i', 'd']);
    assert("pol"@ =~= seq!['p', 'o', 'l']);
    assert("amh"@ =~= seq!['a', 'm', 'h']);
    assert("jav"@ =~= seq!['j', 'a', 'v']);
    assert("kor"@ =~= seq!['k', 'o', 'r']);
    assert("nob"@ =~= seq!['n', 'o', 'b']);
    assert("dan"@ =~= seq!['d', 'a', 'n']);
    assert("swe"@ =~= seq!['s', 'w', 'e']);
    assert("fin"@ =~= seq!['f', 'i', 'n']);
    assert("tur"@ =~= seq!['t', 'u', 'r']);
    assert("nld"@ =~= seq!['n', 'l', 'd']);
    assert("hun"@ =~= seq!['h', 'u', 'n']);
    assert("ces"@ =~= seq!['c', 'e', 's']);
    assert("ell"@ =~= seq!['e', 'l', 'l']);
    assert("bul"@ =~= seq!['b', 'u', 'l']);
    assert("bel"@ =~= seq!['b', 'e', 'l']);
    assert("mar"@ =~= seq!['m', 'a', 'r']);
    assert("kan"@ =~= seq!['k', 'a', 'n']);
    assert("ron"@ =~= seq!['r', 'o', 'n']);
    assert("slv"@ =~= seq!['s', 'l', 'v']);
    assert("hrv"@ =~= seq!['h', 'r', 'v']);
    assert("srp"@ =~= seq!['s', 'r', 'p']);
    assert("mkd"@ =~= seq!['m', 'k', 'd']);
    assert("lit"@ =~= seq!['l', 'i', 't']);
    assert("lav"@ =~= seq!['l', 'a', 'v']);
    assert("est"@ =~= seq!['e', 's', 't']);
    assert("tam"@ =~= seq!['t', 'a', 'm']);
    assert("vie"@ =~= seq!['v', 'i', 'e']);
    assert("urd"@ =~= seq!['u', 'r', 'd']);
    assert("tha"@ =~= seq!['t', 'h', 'a']);
    assert("guj"@ =~= seq!['g', 'u', 'j']);
    assert("uzb"@ =~= seq!['u', 'z', 'b']);
    assert("pan"@ =~= seq!['p', 'a', 'n']);
    assert("aze"@ =~= seq!['a', 'z', 'e']);
    assert("ind"@ =~= seq!['i', 'n', 'd']);
    assert("tel"@ =~= seq!['t', 'e', 'l']);
    assert("pes"@ =~= seq!['p', 'e', 's']);
    assert("mal"@ =~= seq!['m', 'a', 'l']);
    assert("ori"@ =~= seq!['o', 'r', 'i']);
    assert("mya"@ =~= seq!['m', 'y', 'a']);
    assert("nep"@ =~= seq!['n', 'e', 'p']);
    assert("sin"@ =~= seq!['s', 'i', 'n']);
    assert("khm"@ =~= seq!['k', 'h', 'm']);
    assert("tuk"@ =~= seq!['t', 'u', 'k']);
    assert("aka"@ =~= seq!['a', 'k', 'a']);
    assert("zul"@ =~= seq!['z', 'u', 'l']);
    assert("sna"@ =~= seq!['s', 'n', 'a']);
    assert("afr"@ =~= seq!['a', 'f', 'r']);
    assert("lat"@ =~= seq!['l', 'a', 't']);
    assert("slk"@ =~= seq!['s', 'l', 'k']);
    assert("cat"@ =~= seq!['c', 'a', 't']);
    assert("tgl"@ =~= seq!['t', 'g', 'l']);
    assert("hye"@ =~= seq!['h', 'y', 'e']);
    assert("cym"@ =~= seq!['c', 'y', 'm']);
}

} // verus!
